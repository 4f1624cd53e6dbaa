//! The connection to the account that is imported from.

use crate::lists::copy_text;
use crate::plugin::host::json_string;
use crate::plugin::host::json_strings_differ;
use crate::plugin::host::to_json;
use vstd::prelude::*;

verus! {

/// The state of the connection.
#[derive(Debug)]
pub struct ConnectionStatus {
    pub configured: bool,
    pub connected: bool,
    pub token_expired: bool,
    pub account_id: Option<String>,
    pub account_generation: i64,
    pub connection_revision: i64,
}

impl Clone for ConnectionStatus {
    fn clone(&self) -> (copy: Self)
        ensures
            copy == *self,
    {
        ConnectionStatus {
            configured: self.configured,
            connected: self.connected,
            token_expired: self.token_expired,
            account_id: copy_text(&self.account_id),
            account_generation: self.account_generation,
            connection_revision: self.connection_revision,
        }
    }
}

/// The state of the connection, as far as it is known.
#[derive(Debug)]
pub enum Conn {
    Loading,
    Failed(String),
    Ready(ConnectionStatus),
}

impl Conn {
    /// What the state is called.
    pub fn label(&self) -> (label: &'static str)
        ensures
            label@ == (match *self {
                Conn::Loading => "Checking connection…"@,
                Conn::Failed(_) => "Status unavailable"@,
                Conn::Ready(s) => if !s.configured {
                    "Not configured"@
                } else if s.connected && s.token_expired {
                    "Token expired"@
                } else if s.connected {
                    "Connected"@
                } else if s.account_id is Some {
                    "Disconnected"@
                } else {
                    "Not connected"@
                },
            }),
    {
        match self {
            Conn::Loading => "Checking connection…",
            Conn::Failed(_) => "Status unavailable",
            Conn::Ready(s) => if !s.configured {
                "Not configured"
            } else if s.connected && s.token_expired {
                "Token expired"
            } else if s.connected {
                "Connected"
            } else if s.account_id.is_some() {
                "Disconnected"
            } else {
                "Not connected"
            },
        }
    }

    /// The class of the badge for the state.
    pub fn tone(&self) -> (tone: &'static str)
        ensures
            tone@ == (match *self {
                Conn::Ready(s) => if s.connected && s.token_expired {
                    "badge-warning"@
                } else if s.connected {
                    "badge-success"@
                } else {
                    "badge-neutral"@
                },
                _ => "badge-neutral"@,
            }),
    {
        match self {
            Conn::Ready(s) => if s.connected && s.token_expired {
                "badge-warning"
            } else if s.connected {
                "badge-success"
            } else {
                "badge-neutral"
            },
            _ => "badge-neutral",
        }
    }

    /// Whether an account can be connected at all; so it is taken until the state is known.
    pub fn configured(&self) -> (configured: bool)
        ensures
            configured == (match *self {
                Conn::Ready(s) => s.configured,
                _ => true,
            }),
    {
        match self {
            Conn::Ready(s) => s.configured,
            _ => true,
        }
    }

    /// Whether the account of a generation is connected.
    pub open spec fn holds_account(self, generation: Option<i64>) -> bool {
        match self {
            Conn::Ready(s) => s.configured && s.connected && generation == Some(
                s.account_generation,
            ),
            _ => false,
        }
    }

    /// Whether the account of a generation is connected.
    pub fn is_account(&self, generation: Option<i64>) -> (same: bool)
        ensures
            same == self.holds_account(generation),
    {
        match self {
            Conn::Ready(s) => s.configured && s.connected && generation == Some(
                s.account_generation,
            ),
            _ => false,
        }
    }

    /// The generation of the account, where it is known.
    pub fn generation(&self) -> (generation: Option<i64>)
        ensures
            generation == (match *self {
                Conn::Ready(s) => Some(s.account_generation),
                _ => None,
            }),
    {
        match self {
            Conn::Ready(s) => Some(s.account_generation),
            _ => None,
        }
    }
}

/// Whether an account has to be connected, and why.
pub fn connect_hint(status: &ConnectionStatus) -> (hint: Option<&'static str>)
    ensures
        status.connected && !status.token_expired ==> hint is None,
        !status.connected || status.token_expired ==> hint is Some && hint->0@ == (
        if status.token_expired {
            "The stored token has expired. Reconnect the original account, or check the connection again after a refresh."@
        } else if status.account_id is Some {
            "Disconnected. Imported data and the original account binding are retained."@
        } else {
            "Connect your Harvest account. Horae never writes anything back to Harvest."@
        }),
{
    if status.connected && !status.token_expired {
        None
    } else if status.token_expired {
        Some(
            "The stored token has expired. Reconnect the original account, or check the connection again after a refresh.",
        )
    } else if status.account_id.is_some() {
        Some("Disconnected. Imported data and the original account binding are retained.")
    } else {
        Some("Connect your Harvest account. Horae never writes anything back to Harvest.")
    }
}

/// What the button that connects says.
pub fn connect_label(busy: bool, bound: bool) -> (label: &'static str)
    ensures
        label@ == (if busy {
            "Connecting…"@
        } else if bound {
            "Reconnect original account"@
        } else {
            "Connect Harvest"@
        }),
{
    if busy {
        "Connecting…"
    } else if bound {
        "Reconnect original account"
    } else {
        "Connect Harvest"
    }
}

/// A request to release an account, exactly as it was inspected.
#[derive(Debug)]
pub struct AccountChange {
    pub account: String,
    pub generation: i64,
    pub revision: i64,
}

/// Changing to another account: what was inspected is confirmed, then released, then
/// another account is connected.
#[derive(Debug)]
pub struct ChangeAccount {
    pub inspected: Option<ConnectionStatus>,
    pub busy: bool,
    pub error: Option<String>,
}

impl ChangeAccount {
    /// Shows what would be released.
    pub fn inspect(&mut self, status: &ConnectionStatus)
        ensures
            *final(self) == (ChangeAccount {
                inspected: Some(*status),
                error: None,
                ..*old(self)
            }),
    {
        self.error = None;
        self.inspected = Some(status.clone());
    }

    /// Closes what is shown, unless a request is awaited.
    pub fn dismiss(&mut self)
        ensures
            *final(self) == (if old(self).busy {
                *old(self)
            } else {
                ChangeAccount { inspected: None, ..*old(self) }
            }),
    {
        if !self.busy {
            self.inspected = None;
        }
    }

    /// Closes what is shown and forgets what went wrong, unless a request is awaited.
    pub fn cancel(&mut self)
        ensures
            *final(self) == (if old(self).busy {
                *old(self)
            } else {
                ChangeAccount { inspected: None, error: None, ..*old(self) }
            }),
    {
        if !self.busy {
            self.inspected = None;
            self.error = None;
        }
    }

    /// Confirms what is shown: the request to release it, unless one is awaited.
    pub fn confirm(&mut self) -> (change: Option<AccountChange>)
        ensures
            change is Some <==> {
                &&& !old(self).busy
                &&& old(self).inspected is Some
                &&& old(self).inspected->0.account_id is Some
            },
            change is None ==> *final(self) == *old(self),
            change is Some ==> {
                let shown = old(self).inspected->0;
                &&& change->0.account@ == shown.account_id->0@
                &&& change->0.generation == shown.account_generation
                &&& change->0.revision == shown.connection_revision
                &&& *final(self) == (ChangeAccount { busy: true, error: None, ..*old(self) })
            },
    {
        if self.busy {
            return None;
        }
        let change = match &self.inspected {
            None => {
                return None;
            },
            Some(shown) => match &shown.account_id {
                None => {
                    return None;
                },
                Some(account) => AccountChange {
                    account: account.clone(),
                    generation: shown.account_generation,
                    revision: shown.connection_revision,
                },
            },
        };
        self.busy = true;
        self.error = None;
        Some(change)
    }

    /// Takes whether the account was released: whether another is to be connected now.
    pub fn released(&mut self, result: Result<(), String>) -> (connect: bool)
        ensures
            connect == (result is Ok),
            match result {
                Ok(_) => *final(self) == (ChangeAccount { inspected: None, ..*old(self) }),
                Err(message) => *final(self) == (ChangeAccount {
                    error: Some(message),
                    busy: false,
                    ..*old(self)
                }),
            },
    {
        match result {
            Ok(_) => {
                self.inspected = None;
                true
            },
            Err(message) => {
                self.error = Some(message);
                self.busy = false;
                false
            },
        }
    }

    /// Takes whether connecting another account began.
    pub fn connecting(&mut self, result: Result<(), String>)
        ensures
            match result {
                Ok(_) => *final(self) == (ChangeAccount { busy: false, ..*old(self) }),
                Err(message) => {
                    &&& final(self).error is Some
                    &&& final(self).error->0@
                        == "Account released. Use Connect Harvest to try authorization again: "@
                        + message@
                    &&& *final(self) == (ChangeAccount {
                        error: final(self).error,
                        busy: false,
                        ..*old(self)
                    })
                },
            },
    {
        if let Err(message) = result {
            let mut shown =
                "Account released. Use Connect Harvest to try authorization again: ".to_owned();
            shown.append(message.as_str());
            self.error = Some(shown);
        }
        self.busy = false;
    }
}

/// The script that sends the browser to an address.
pub open spec fn redirect_text(url: Seq<char>) -> Seq<char> {
    "window.location.href = "@ + json_string(url) + ";"@
}

/// The script that sends the browser to an address.
pub fn redirect_script(url: &str) -> (script: String)
    ensures
        script@ == redirect_text(url@),
{
    let mut script = "window.location.href = ".to_owned();
    script.append(to_json(url).as_str());
    script.append(";");
    script
}

/// What came of asking where an account is connected: the script that goes there, or what is
/// shown in place of a report.
pub fn connect_started(reply: Result<String, String>) -> (next: Result<String, String>)
    ensures
        match reply {
            Ok(url) => next is Ok && next->Ok_0@ == redirect_text(url@),
            Err(message) => next is Err && next->Err_0@ == "Could not start Harvest connect: "@
                + message@,
        },
{
    match reply {
        Ok(url) => Ok(redirect_script(url.as_str())),
        Err(message) => {
            let mut shown = "Could not start Harvest connect: ".to_owned();
            shown.append(message.as_str());
            Err(shown)
        },
    }
}

/// Browsers are sent to different addresses by different scripts.
pub proof fn redirects_can_be_told(a: Seq<char>, b: Seq<char>)
    requires
        redirect_text(a) == redirect_text(b),
    ensures
        a == b,
{
    let n = "window.location.href = "@.len() as int;
    let (x, y) = (json_string(a), json_string(b));
    let end = ";"@.len() as int;
    let (s, t) = (redirect_text(a), redirect_text(b));
    assert(x.len() == s.len() - n - end);
    assert(s.subrange(n, s.len() - end) =~= x);
    assert(t.subrange(n, t.len() - end) =~= y);
    json_strings_differ(a, b);
}

} // verus!
