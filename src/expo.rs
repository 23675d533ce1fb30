//! The multi-recipient push service: per-recipient messages, batches of at
//! most one hundred recipients per request, and per-recipient outcomes.
use vstd::prelude::*;
use vstd::string::*;
use crate::notifications::{NotificationError, NotificationMessage, Priority, expo_level};

verus! {

/// Recipients per request.
pub const CHUNK_SIZE: usize = 100;

/// Seconds a push stays deliverable.
pub const PUSH_TTL_SECS: i32 = 3600;

/// Client of the multi-recipient push service.
pub struct ExpoClient {
    pub client: reqwest::Client,
}

/// One push as the service receives it.
pub struct ExpoPushMessage {
    pub to: String,
    pub title: Option<String>,
    pub body: String,
    pub data: Option<serde_json::Value>,
    pub priority: Option<String>,
    pub sound: Option<String>,
    pub badge: Option<i32>,
    pub channel_id: Option<String>,
    pub ttl: Option<i32>,
}

/// The service's receipt for one push.
pub struct ExpoPushTicket {
    pub status: String,
    pub id: Option<String>,
    pub message: Option<String>,
}

/// The service's answer to one request.
pub struct ExpoPushResponse {
    pub data: Vec<ExpoPushTicket>,
}

/// The outcome of a ticket: accepted when its status is "ok", else an error
/// with the ticket's message, or "Unknown error" when it has none.
pub open spec fn ticket_accepted(t: ExpoPushTicket) -> bool {
    t.status@ == "ok"@
}

pub open spec fn ticket_error_text(t: ExpoPushTicket) -> Seq<char> {
    match t.message {
        Some(m) => m@,
        None => "Unknown error"@,
    }
}

/// `r` is a service error carrying `text`.
pub open spec fn is_service_error<T>(r: Result<T, NotificationError>, text: Seq<char>) -> bool {
    match r {
        Err(NotificationError::ServiceError(m)) => m@ == text,
        _ => false,
    }
}

/// Recipients `[c * CHUNK_SIZE, min((c + 1) * CHUNK_SIZE, n))` form chunk `c`.
pub open spec fn chunk_count(n: nat) -> nat {
    ((n + CHUNK_SIZE - 1) / (CHUNK_SIZE as int)) as nat
}

impl ExpoClient {
    pub fn new(client: reqwest::Client) -> (c: Self)
        ensures
            c.client == client,
    {
        ExpoClient { client }
    }

    /// The service's name for a priority.
    pub fn convert_priority(priority: Priority) -> (r: String)
        ensures
            r@ == expo_level(priority),
    {
        priority.as_expo_priority()
    }

    /// The push of `message` to one recipient: titled, default sound, the
    /// "weather" channel, deliverable for an hour.
    pub fn build_push_message(token: &str, message: &NotificationMessage) -> (m: ExpoPushMessage)
        ensures
            m.to@ == token@,
            m.title matches Some(t) && t@ == message.title@,
            m.body@ == message.body@,
            m.data is None,
            m.priority matches Some(p) && p@ == expo_level(message.priority),
            m.sound matches Some(s) && s@ == "default"@,
            m.badge is None,
            m.channel_id matches Some(c) && c@ == "weather"@,
            m.ttl == Some(PUSH_TTL_SECS),
    {
        ExpoPushMessage {
            to: String::from_str(token),
            title: Some(message.title.clone()),
            body: message.body.clone(),
            data: None,
            priority: Some(Self::convert_priority(message.priority)),
            sound: Some(String::from_str("default")),
            badge: None,
            channel_id: Some(String::from_str("weather")),
            ttl: Some(PUSH_TTL_SECS),
        }
    }

    /// The recipients split into consecutive chunks of `CHUNK_SIZE`, the last
    /// one possibly shorter; together they are the recipients in order.
    pub fn chunk_tokens(tokens: &Vec<String>) -> (chunks: Vec<Vec<String>>)
        ensures
            chunks@.len() == chunk_count(tokens@.len()),
            forall|c: int, k: int|
                0 <= c < chunks@.len() && 0 <= k < chunks@[c]@.len() ==> c * CHUNK_SIZE + k
                    < tokens@.len() && (#[trigger] chunks@[c]@[k]) == tokens@[c * CHUNK_SIZE + k],
            forall|c: int|
                0 <= c < chunks@.len() ==> (#[trigger] chunks@[c]@).len() == if (c + 1) * CHUNK_SIZE
                    <= tokens@.len() {
                    CHUNK_SIZE as int
                } else {
                    tokens@.len() - c * CHUNK_SIZE
                },
    {
        let n = tokens.len();
        let mut chunks: Vec<Vec<String>> = Vec::new();
        let mut start: usize = 0;
        while start < n
            invariant
                n == tokens@.len(),
                start <= n,
                start == chunks@.len() * CHUNK_SIZE || start == n,
                start < n ==> start == chunks@.len() * CHUNK_SIZE,
                start == n ==> chunks@.len() == chunk_count(n as nat),
                chunks@.len() * CHUNK_SIZE <= start + CHUNK_SIZE,
                forall|c: int, k: int|
                    0 <= c < chunks@.len() && 0 <= k < chunks@[c]@.len() ==> c * CHUNK_SIZE + k
                        < tokens@.len() && (#[trigger] chunks@[c]@[k]) == tokens@[c * CHUNK_SIZE + k],
                forall|c: int|
                    0 <= c < chunks@.len() ==> (#[trigger] chunks@[c]@).len() == if (c + 1)
                        * CHUNK_SIZE <= tokens@.len() {
                        CHUNK_SIZE as int
                    } else {
                        tokens@.len() - c * CHUNK_SIZE
                    },
            decreases n - start,
        {
            let end: usize = if n - start > CHUNK_SIZE {
                start + CHUNK_SIZE
            } else {
                n
            };
            let mut chunk: Vec<String> = Vec::new();
            let mut k: usize = start;
            while k < end
                invariant
                    start <= k <= end <= n,
                    n == tokens@.len(),
                    chunk@.len() == k - start,
                    forall|j: int| 0 <= j < chunk@.len() ==> (#[trigger] chunk@[j]) == tokens@[start + j],
                decreases end - k,
            {
                chunk.push(tokens[k].clone());
                k = k + 1;
            }
            let ghost c = chunks@.len() as int;
            chunks.push(chunk);
            proof {
                assert(chunks@[c] == chunk);
                if end == n {
                    assert(chunk_count(n as nat) == c + 1) by (nonlinear_arith)
                        requires
                            start == c * 100,
                            start < n,
                            n - start <= 100,
                    {
                        assert(n + 99 >= (c + 1) * 100);
                        assert(n + 99 < (c + 2) * 100);
                    }
                }
            }
            start = end;
        }
        chunks
    }

    /// The outcome of one ticket.
    pub fn ticket_outcome(ticket: ExpoPushTicket) -> (r: Result<ExpoPushTicket, NotificationError>)
        ensures
            ticket_accepted(ticket) ==> r == Ok::<ExpoPushTicket, NotificationError>(ticket),
            !ticket_accepted(ticket) ==> is_service_error(r, ticket_error_text(ticket)),
    {
        let ok = String::from_str("ok");
        if ticket.status == ok {
            Ok(ticket)
        } else {
            let text = match ticket.message {
                Some(m) => m,
                None => String::from_str("Unknown error"),
            };
            Err(NotificationError::ServiceError(text))
        }
    }

    /// The per-recipient outcomes of one chunk's request: one per ticket when
    /// the service answered, else the request's error for every recipient of
    /// the chunk.
    pub fn chunk_outcomes(chunk_len: usize, answer: Result<ExpoPushResponse, String>) -> (r: Vec<
        Result<ExpoPushTicket, NotificationError>,
    >)
        ensures
            match answer {
                Err(e) => r@.len() == chunk_len && forall|i: int|
                    0 <= i < r@.len() ==> is_service_error(#[trigger] r@[i], e@),
                Ok(resp) => r@.len() == resp.data@.len() && forall|i: int|
                    0 <= i < r@.len() ==> if ticket_accepted(resp.data@[i]) {
                        #[trigger] r@[i] == Ok::<ExpoPushTicket, NotificationError>(resp.data@[i])
                    } else {
                        is_service_error(r@[i], ticket_error_text(resp.data@[i]))
                    },
            },
    {
        let mut out: Vec<Result<ExpoPushTicket, NotificationError>> = Vec::new();
        match answer {
            Err(e) => {
                let mut i: usize = 0;
                while i < chunk_len
                    invariant
                        i <= chunk_len,
                        out@.len() == i,
                        forall|j: int| 0 <= j < out@.len() ==> is_service_error(#[trigger] out@[j], e@),
                    decreases chunk_len - i,
                {
                    out.push(Err(NotificationError::ServiceError(e.clone())));
                    i = i + 1;
                }
            },
            Ok(resp) => {
                let ghost all = resp.data@;
                let mut tickets = resp.data;
                let total = tickets.len();
                let mut i: usize = 0;
                while tickets.len() > 0
                    invariant
                        i + tickets@.len() == all.len(),
                        total == all.len(),
                        tickets@ == all.subrange(i as int, all.len() as int),
                        out@.len() == i,
                        forall|j: int|
                            0 <= j < out@.len() ==> if ticket_accepted(all[j]) {
                                #[trigger] out@[j] == Ok::<ExpoPushTicket, NotificationError>(all[j])
                            } else {
                                is_service_error(out@[j], ticket_error_text(all[j]))
                            },
                    decreases tickets.len(),
                {
                    let t = tickets.remove(0);
                    assert(t == all[i as int]);
                    assert(tickets@ =~= all.subrange(i + 1, all.len() as int));
                    out.push(Self::ticket_outcome(t));
                    i = i + 1;
                }
            },
        }
        out
    }
}

/// How many outcomes are successes.
pub open spec fn successes_upto<T>(r: Seq<Result<T, NotificationError>>, k: nat) -> nat
    decreases k,
{
    if k == 0 {
        0
    } else {
        successes_upto(r, (k - 1) as nat) + if r[k - 1] is Ok {
            1nat
        } else {
            0nat
        }
    }
}

/// The number of recipients reached.
pub fn success_count(results: &Vec<Result<ExpoPushTicket, NotificationError>>) -> (n: usize)
    ensures
        n == successes_upto(results@, results@.len()),
{
    let mut n: usize = 0;
    let mut i: usize = 0;
    while i < results.len()
        invariant
            i <= results@.len(),
            n == successes_upto(results@, i as nat),
            n <= i,
        decreases results.len() - i,
    {
        if results[i].is_ok() {
            n = n + 1;
        }
        i = i + 1;
    }
    n
}

} // verus!
