//! The frame-level half of the WebSocket bridge: detecting an upgrade
//! request, building the upstream WebSocket URL (scheme translated, the
//! full original path kept), and the forwarding decision for each frame.
//! The two pump loops that apply these decisions to live sockets run
//! outside the library; whichever loop stops first ends the session.

use vstd::prelude::*;
use vstd::string::{StrSliceExecFns, StringExecFns};
use crate::forward::{ascii_lower, ascii_lower_string};

verus! {

/// A WebSocket frame, as both sides of the bridge see it.
#[derive(Debug, Clone)]
pub enum Frame {
    Text(String),
    Binary(Vec<u8>),
    Ping(Vec<u8>),
    Pong(Vec<u8>),
    Close,
}

/// What the pump does after one receive on one side of the bridge.
#[derive(Debug, Clone)]
pub enum PumpAction {
    /// Send this frame to the other side and keep pumping.
    Forward(Frame),
    /// Send a close frame to the other side, then stop this pump.
    ForwardCloseAndStop,
    /// Stop this pump without sending anything further.
    Stop,
}

/// The close code that signals an internal error to a WebSocket peer.
pub const CLOSE_INTERNAL_ERROR: u16 = 1011;

/// What the bridge does once the upstream connection attempt resolves.
#[derive(Debug, Clone)]
pub enum ConnectAction {
    /// The upstream socket is open: run the two forwarding pumps.
    StartPumps,
    /// The upstream could not be reached: send the caller a close frame
    /// with this code and end the session.
    SendCloseToCaller(u16),
}

/// The bridge's reaction to the upstream connection attempt: on success
/// the two pumps start; on failure the caller is sent a close frame with
/// the internal-error code and the session ends, with no retry.
pub fn connect_step(connected: bool) -> (r: ConnectAction)
    ensures
        r == if connected {
            ConnectAction::StartPumps
        } else {
            ConnectAction::SendCloseToCaller(CLOSE_INTERNAL_ERROR)
        },
{
    if connected {
        ConnectAction::StartPumps
    } else {
        ConnectAction::SendCloseToCaller(CLOSE_INTERNAL_ERROR)
    }
}

/// A request asks for a WebSocket upgrade when its `Upgrade` header
/// equals `websocket` in any letter casing.
pub open spec fn is_upgrade_spec(upgrade_header: Option<Seq<char>>) -> bool {
    match upgrade_header {
        Some(v) => ascii_lower(v) == "websocket"@,
        None => false,
    }
}

/// Detect a WebSocket upgrade request from its `Upgrade` header.
pub fn is_websocket_upgrade(upgrade_header: Option<&String>) -> (r: bool)
    ensures
        r == is_upgrade_spec(
            match upgrade_header {
                Some(v) => Some(v@),
                None => None,
            },
        ),
{
    match upgrade_header {
        Some(v) => {
            let lower = ascii_lower_string(v.as_str());
            crate::forward::str_eq(lower.as_str(), "websocket")
        },
        None => false,
    }
}

/// The upstream WebSocket URL: the backend base with its scheme turned
/// from http to ws (or https to wss), then the full original path with
/// its routing prefix kept, then the query after `?` if there is one.
pub open spec fn ws_url_spec(base: Seq<char>, path: Seq<char>, query: Option<Seq<char>>) -> Seq<
    char,
> {
    let swapped = if "http://"@.is_prefix_of(base) {
        "ws://"@ + base.skip("http://"@.len() as int)
    } else if "https://"@.is_prefix_of(base) {
        "wss://"@ + base.skip("https://"@.len() as int)
    } else {
        base
    };
    swapped + path + (match query {
        Some(q) => seq!['?'] + q,
        None => Seq::<char>::empty(),
    })
}

/// Whether a string starts with the given prefix.
pub fn str_has_prefix(s: &str, lit: &str) -> (r: bool)
    ensures
        r == lit@.is_prefix_of(s@),
{
    let n = s.unicode_len();
    let m = lit.unicode_len();
    if n < m {
        return false;
    }
    let mut k: usize = 0;
    while k < m
        invariant
            n == s@.len(),
            m == lit@.len(),
            k <= m <= n,
            forall|t: int| 0 <= t < k ==> s@[t] == lit@[t],
        decreases m - k,
    {
        if s.get_char(k) != lit.get_char(k) {
            proof {
                assert(!lit@.is_prefix_of(s@)) by {
                    if lit@.is_prefix_of(s@) {
                        assert(s@.subrange(0, m as int)[k as int] == s@[k as int]);
                    }
                }
            }
            return false;
        }
        k += 1;
    }
    proof {
        assert(lit@ =~= s@.subrange(0, m as int)) by {
            assert(forall|t: int| 0 <= t < m ==> #[trigger] s@.subrange(0, m as int)[t] == s@[t]);
        }
    }
    true
}

/// Build the upstream WebSocket URL from the backend base URL and the
/// original path and query.
pub fn build_ws_url(base: &String, path: &str, query: Option<&String>) -> (r: String)
    ensures
        r@ == ws_url_spec(
            base@,
            path@,
            match query {
                Some(q) => Some(q@),
                None => None,
            },
        ),
{
    let n = base.as_str().unicode_len();
    let mut out: String;
    if str_has_prefix(base.as_str(), "http://") {
        let m = str_len7();
        proof {
            reveal_strlit("http://");
        }
        let rest = base.as_str().substring_char(m, n);
        out = String::from_str("ws://");
        out.append(rest);
        proof {
            assert(rest@ =~= base@.skip("http://"@.len() as int));
        }
    } else if str_has_prefix(base.as_str(), "https://") {
        let m = str_len8();
        proof {
            reveal_strlit("https://");
        }
        let rest = base.as_str().substring_char(m, n);
        out = String::from_str("wss://");
        out.append(rest);
        proof {
            assert(rest@ =~= base@.skip("https://"@.len() as int));
        }
    } else {
        out = base.clone();
    }
    out.append(path);
    match query {
        Some(q) => {
            crate::codec::push_char(&mut out, '?');
            out.append(q.as_str());
            proof {
                assert(out@ =~= ws_url_spec(base@, path@, Some(q@)));
            }
        },
        None => {
            proof {
                assert(out@ =~= ws_url_spec(base@, path@, None::<Seq<char>>));
            }
        },
    }
    out
}

fn str_len7() -> (r: usize)
    ensures
        r == "http://"@.len(),
{
    proof {
        reveal_strlit("http://");
    }
    7
}

fn str_len8() -> (r: usize)
    ensures
        r == "https://"@.len(),
{
    proof {
        reveal_strlit("https://");
    }
    8
}

/// The forwarding decision for one event received on either side of the
/// bridge: data and control frames cross unchanged, a close frame is
/// answered with a close and stops the pump, and the end of the stream or
/// a transport error stops the pump silently.
pub fn pump_step(event: Option<Result<Frame, ()>>) -> (r: PumpAction)
    ensures
        match event {
            None => r == PumpAction::Stop,
            Some(Err(_)) => r == PumpAction::Stop,
            Some(Ok(f)) => match f {
                Frame::Close => r == PumpAction::ForwardCloseAndStop,
                _ => r == PumpAction::Forward(f),
            },
        },
{
    match event {
        None => PumpAction::Stop,
        Some(Err(_)) => PumpAction::Stop,
        Some(Ok(f)) => match f {
            Frame::Close => PumpAction::ForwardCloseAndStop,
            other => PumpAction::Forward(other),
        },
    }
}

} // verus!
