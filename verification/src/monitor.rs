//! The server-status poller's reshaping core: four named counters read out
//! of the key/value pairs a fixed introspection statement returns.

use crate::text::{parse_u64_or_zero, parsed_u64_or_zero};
use vstd::prelude::*;
use vstd::string::StringExecFns;

verus! {

/// A point-in-time snapshot of four server counters; not retained.
pub struct ServerStatus {
    /// Threads currently connected.
    pub connections: u64,
    /// Bytes received by the server.
    pub bytes_received: u64,
    /// Bytes sent by the server.
    pub bytes_sent: u64,
    /// Statements the server has seen.
    pub queries: u64,
}

/// The fixed introspection statement the poller issues.
pub fn server_status_query() -> (r: String)
    ensures
        r@ == "SHOW GLOBAL STATUS WHERE Variable_name IN ('Threads_connected', 'Bytes_received', 'Bytes_sent', 'Questions')"@,
{
    String::from_str(
        "SHOW GLOBAL STATUS WHERE Variable_name IN ('Threads_connected', 'Bytes_received', 'Bytes_sent', 'Questions')",
    )
}

/// The counter named `key` among the returned pairs: the parsed value of
/// the last pair so named, or zero when none is.
pub open spec fn counter_of(pairs: Seq<(String, String)>, key: Seq<char>) -> u64
    decreases pairs.len(),
{
    if pairs.len() == 0 {
        0
    } else if pairs.last().0@ == key {
        parsed_u64_or_zero(pairs.last().1@)
    } else {
        counter_of(pairs.drop_last(), key)
    }
}

/// Reshapes the introspection statement's key/value pairs into the
/// snapshot: each counter is the parsed value of the last pair bearing its
/// name, and a missing or unparsable counter defaults to zero.
pub fn status_from_pairs(pairs: &Vec<(String, String)>) -> (r: ServerStatus)
    ensures
        r.connections == counter_of(pairs@, "Threads_connected"@),
        r.bytes_received == counter_of(pairs@, "Bytes_received"@),
        r.bytes_sent == counter_of(pairs@, "Bytes_sent"@),
        r.queries == counter_of(pairs@, "Questions"@),
{
    let key_connections = String::from_str("Threads_connected");
    let key_received = String::from_str("Bytes_received");
    let key_sent = String::from_str("Bytes_sent");
    let key_queries = String::from_str("Questions");
    let mut connections: u64 = 0;
    let mut bytes_received: u64 = 0;
    let mut bytes_sent: u64 = 0;
    let mut queries: u64 = 0;
    let mut i: usize = 0;
    proof {
        assert(pairs@.take(0) =~= Seq::<(String, String)>::empty());
    }
    while i < pairs.len()
        invariant
            i <= pairs@.len(),
            key_connections@ == "Threads_connected"@,
            key_received@ == "Bytes_received"@,
            key_sent@ == "Bytes_sent"@,
            key_queries@ == "Questions"@,
            connections == counter_of(pairs@.take(i as int), "Threads_connected"@),
            bytes_received == counter_of(pairs@.take(i as int), "Bytes_received"@),
            bytes_sent == counter_of(pairs@.take(i as int), "Bytes_sent"@),
            queries == counter_of(pairs@.take(i as int), "Questions"@),
        decreases pairs@.len() - i,
    {
        proof {
            assert(pairs@.take(i + 1).drop_last() =~= pairs@.take(i as int));
            assert(pairs@.take(i + 1).last() == pairs@[i as int]);
        }
        let pair = &pairs[i];
        let value = parse_u64_or_zero(pair.1.as_str());
        if pair.0 == key_connections {
            connections = value;
        }
        if pair.0 == key_received {
            bytes_received = value;
        }
        if pair.0 == key_sent {
            bytes_sent = value;
        }
        if pair.0 == key_queries {
            queries = value;
        }
        i = i + 1;
    }
    proof {
        assert(pairs@.take(pairs@.len() as int) =~= pairs@);
    }
    ServerStatus { connections, bytes_received, bytes_sent, queries }
}

} // verus!
