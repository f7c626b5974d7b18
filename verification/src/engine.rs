//! The dispatcher core: what a worker decides about a dequeued envelope
//! (credential extraction, header stripping, request URL, streaming flag),
//! and the shared state — bounded queues, stream-chunk buffer, active
//! counter — that connects caller and workers.

use vstd::prelude::*;
use crate::counter::ActiveRequestCounter;
use crate::json::{Json, parsed_json, spec_lookup, spec_remove_first, parse_json, lookup,
    remove_field};
use crate::queue::BoundedQueue;
use crate::text::{str_eq, str_views, spec_is_prefix, spec_lines, split_lines};
use std::collections::VecDeque;

verus! {

/// Why an envelope was abandoned before any transport work. No response is
/// ever produced for such an envelope; only the counter records it.
#[derive(Clone, Copy, PartialEq, Eq, Structural, Debug)]
pub enum PrepareError {
    /// The envelope text is not one complete JSON document.
    MalformedJson,
    /// The envelope has no `_headers` entry carrying the provider's
    /// credential under the expected key.
    MissingCredential,
}

/// Everything a worker needs to issue the HTTP call for one envelope.
#[derive(Debug)]
pub struct PreparedRequest {
    /// Base URL joined with the fixed chat-completions path.
    pub url: String,
    /// The credential found under the provider-appropriate header key.
    pub api_key: String,
    /// The envelope's `stream` flag; absent or non-boolean means false.
    pub stream: bool,
    /// The envelope body with the reserved `_headers` entry stripped.
    pub body: Json,
}

/// The header key the credential is read from: `x-api-key` for the
/// Anthropic-style provider, `Authorization` for every other.
pub open spec fn spec_credential_key(provider: Seq<char>) -> Seq<char> {
    if provider == "anthropic"@ {
        "x-api-key"@
    } else {
        "Authorization"@
    }
}

/// The credential an envelope carries for a provider: the text under the
/// provider's key inside the `_headers` object, demanding an object at both
/// levels and text at the leaf.
pub open spec fn spec_envelope_credential(parsed: Option<Json>, provider: Seq<char>) -> Option<
    Seq<char>,
> {
    match parsed {
        Some(Json::Object(fields)) => match spec_lookup(fields@, "_headers"@) {
            Some(Json::Object(headers)) => match spec_lookup(
                headers@,
                spec_credential_key(provider),
            ) {
                Some(Json::Text(t)) => Some(t@),
                _ => None,
            },
            _ => None,
        },
        _ => None,
    }
}

/// The envelope's `stream` flag: a boolean `stream` field at top level, and
/// false wherever that is absent or of another type.
pub open spec fn spec_stream_flag(parsed: Option<Json>) -> bool {
    match parsed {
        Some(Json::Object(fields)) => match spec_lookup(fields@, "stream"@) {
            Some(Json::Bool(b)) => b,
            _ => false,
        },
        _ => false,
    }
}

/// The worker's per-envelope decision, taken right after the dequeue: parse
/// the envelope, read the credential from `_headers` under the
/// provider-appropriate key, strip `_headers` from the body, resolve the
/// request URL, and read the `stream` flag. A failure abandons the envelope
/// with no response ever produced.
pub fn prepare_envelope(envelope: &str, provider: &str, base_url: &str) -> (r: Result<
    PreparedRequest,
    PrepareError,
>)
    ensures
        r is Ok <==> spec_envelope_credential(parsed_json(envelope@), provider@) is Some,
        r is Err ==> (r->Err_0 == PrepareError::MalformedJson <==> parsed_json(
            envelope@,
        ) is None),
        r is Ok ==> ({
            let p = r->Ok_0;
            &&& Some(p.api_key@) == spec_envelope_credential(parsed_json(envelope@), provider@)
            &&& p.stream == spec_stream_flag(parsed_json(envelope@))
            &&& p.url@ == base_url@ + "/chat/completions"@
            &&& match (parsed_json(envelope@), p.body) {
                (Some(Json::Object(fields)), Json::Object(body_fields)) => body_fields@
                    == spec_remove_first(fields@, "_headers"@),
                _ => false,
            }
        }),
{
    let parsed = parse_json(envelope);
    match parsed {
        None => Err(PrepareError::MalformedJson),
        Some(doc) => match doc {
            Json::Object(mut fields) => {
                let stream: bool = match lookup(&fields, &"stream".to_owned()) {
                    Some(v) => match v {
                        Json::Bool(b) => *b,
                        _ => false,
                    },
                    None => false,
                };
                let key_name: String = if str_eq(provider, "anthropic") {
                    "x-api-key".to_owned()
                } else {
                    "Authorization".to_owned()
                };
                let api_key: Option<String> = match lookup(&fields, &"_headers".to_owned()) {
                    Some(h) => match h {
                        Json::Object(headers) => match lookup(headers, &key_name) {
                            Some(v) => match v {
                                Json::Text(t) => Some(t.clone()),
                                _ => None,
                            },
                            None => None,
                        },
                        _ => None,
                    },
                    None => None,
                };
                match api_key {
                    None => Err(PrepareError::MissingCredential),
                    Some(api_key) => {
                        remove_field(&mut fields, &"_headers".to_owned());
                        let url = base_url.to_owned().concat("/chat/completions");
                        Ok(
                            PreparedRequest {
                                url,
                                api_key,
                                stream,
                                body: Json::Object(fields),
                            },
                        )
                    },
                }
            },
            _ => Err(PrepareError::MissingCredential),
        },
    }
}

/// `j` is the wire form of one chat message: an object with exactly the
/// `role` and `content` texts of `m`.
pub open spec fn spec_message_obj(j: Json, m: (String, String)) -> bool {
    match j {
        Json::Object(fs) => {
            &&& fs@.len() == 2
            &&& fs@[0].0@ == "role"@
            &&& match fs@[0].1 {
                Json::Text(t) => t@ == m.0@,
                _ => false,
            }
            &&& fs@[1].0@ == "content"@
            &&& match fs@[1].1 {
                Json::Text(t) => t@ == m.1@,
                _ => false,
            }
        },
        _ => false,
    }
}

/// The envelope the blocking convenience wrapper submits: the credential
/// under `Authorization` inside the reserved `_headers` entry, and the
/// `(role, content)` messages in order under `messages`.
pub fn build_envelope(messages: &Vec<(String, String)>, api_key: &str) -> (r: Json)
    ensures
        match r {
            Json::Object(fields) => {
                &&& fields@.len() == 2
                &&& fields@[0].0@ == "_headers"@
                &&& match fields@[0].1 {
                    Json::Object(hs) => hs@.len() == 1 && hs@[0].0@ == "Authorization"@
                        && match hs@[0].1 {
                        Json::Text(t) => t@ == api_key@,
                        _ => false,
                    },
                    _ => false,
                }
                &&& fields@[1].0@ == "messages"@
                &&& match fields@[1].1 {
                    Json::Array(items) => items@.len() == messages@.len() && forall|i: int|
                        0 <= i < items@.len() ==> spec_message_obj(
                            #[trigger] items@[i],
                            messages@[i],
                        ),
                    _ => false,
                }
            },
            _ => false,
        },
{
    let mut headers: Vec<(String, Json)> = Vec::new();
    headers.push(("Authorization".to_owned(), Json::Text(api_key.to_owned())));
    let mut items: Vec<Json> = Vec::new();
    let n = messages.len();
    let mut i: usize = 0;
    while i < n
        invariant
            n == messages@.len(),
            i <= n,
            items@.len() == i,
            forall|k: int|
                0 <= k < i ==> spec_message_obj(#[trigger] items@[k], messages@[k]),
        decreases n - i,
    {
        let mut fs: Vec<(String, Json)> = Vec::new();
        fs.push(("role".to_owned(), Json::Text(messages[i].0.clone())));
        fs.push(("content".to_owned(), Json::Text(messages[i].1.clone())));
        items.push(Json::Object(fs));
        i = i + 1;
    }
    let mut fields: Vec<(String, Json)> = Vec::new();
    fields.push(("_headers".to_owned(), Json::Object(headers)));
    fields.push(("messages".to_owned(), Json::Array(items)));
    Json::Object(fields)
}

/// The `data: `-prefixed payloads of a run of lines, in order, each with
/// the prefix stripped.
pub open spec fn spec_data_payloads(lines: Seq<Seq<char>>) -> Seq<Seq<char>>
    decreases lines.len(),
{
    if lines.len() == 0 {
        Seq::empty()
    } else {
        let rest = spec_data_payloads(lines.skip(1));
        if spec_is_prefix("data: "@, lines[0]) {
            seq![lines[0].skip("data: "@.len() as int)] + rest
        } else {
            rest
        }
    }
}

/// The capacity of the request queue and of the response channel.
pub const QUEUE_CAPACITY: usize = 100000;

/// The state shared between the caller and the worker pool: the bounded
/// request queue, the bounded response channel, the stream-chunk buffer,
/// and the active-request counter.
pub struct Dispatcher {
    pub requests: BoundedQueue,
    pub responses: BoundedQueue,
    pub stream_chunks: VecDeque<String>,
    pub active: ActiveRequestCounter,
}

impl Dispatcher {
    pub open spec fn wf(self) -> bool {
        &&& self.requests.wf()
        &&& self.responses.wf()
        &&& self.requests.spec_capacity() == QUEUE_CAPACITY
        &&& self.responses.spec_capacity() == QUEUE_CAPACITY
    }

    pub fn new() -> (r: Dispatcher)
        ensures
            r.wf(),
            r.requests.spec_items().len() == 0,
            r.responses.spec_items().len() == 0,
            r.stream_chunks@.len() == 0,
            r.active.spec_count() == 0,
    {
        Dispatcher {
            requests: BoundedQueue::new(QUEUE_CAPACITY),
            responses: BoundedQueue::new(QUEUE_CAPACITY),
            stream_chunks: VecDeque::new(),
            active: ActiveRequestCounter::new(),
        }
    }

    /// Caller side: offer an envelope to the request queue. It enters
    /// exactly when the queue has room; on a full queue the caller must
    /// wait for a worker's dequeue and offer it again.
    pub fn submit(&mut self, envelope: String) -> (r: bool)
        requires
            old(self).wf(),
        ensures
            final(self).wf(),
            r == (old(self).requests.spec_items().len() < old(self).requests.spec_capacity()),
            r ==> final(self).requests.spec_items() == old(self).requests.spec_items().push(
                envelope,
            ),
            !r ==> final(self).requests.spec_items() == old(self).requests.spec_items(),
            final(self).responses == old(self).responses,
            final(self).stream_chunks == old(self).stream_chunks,
            final(self).active == old(self).active,
    {
        self.requests.try_enqueue(envelope)
    }

    /// Worker side: take the oldest pending envelope and mark it in flight.
    /// The counter moves up exactly when an envelope is handed out.
    pub fn worker_dequeue(&mut self) -> (r: Option<String>)
        requires
            old(self).wf(),
            old(self).active.spec_count() < usize::MAX,
        ensures
            final(self).wf(),
            r is Some <==> old(self).requests.spec_items().len() > 0,
            r is Some ==> r->0 == old(self).requests.spec_items()[0] && final(self).requests.spec_items() == old(self).requests.spec_items().skip(1) && final(self).active.spec_count() == old(self).active.spec_count() + 1,
            r is None ==> final(self).requests.spec_items() == old(self).requests.spec_items()
                && final(self).active.spec_count() == old(self).active.spec_count(),
            final(self).responses == old(self).responses,
            final(self).stream_chunks == old(self).stream_chunks,
    {
        let r = self.requests.dequeue();
        match r {
            Some(envelope) => {
                self.active.increment();
                Some(envelope)
            },
            None => None,
        }
    }

    /// Worker side: record the terminal state of an in-flight envelope —
    /// success, drop, or abandonment alike.
    pub fn worker_finish(&mut self)
        requires
            old(self).active.spec_count() > 0,
        ensures
            final(self).active.spec_count() == old(self).active.spec_count() - 1,
            final(self).requests == old(self).requests,
            final(self).responses == old(self).responses,
            final(self).stream_chunks == old(self).stream_chunks,
    {
        self.active.decrement();
    }

    /// Worker side: offer a complete response to the response channel. On a
    /// full channel the response is dropped, as the engine has always done.
    pub fn publish_response(&mut self, text: String) -> (r: bool)
        requires
            old(self).wf(),
        ensures
            final(self).wf(),
            r == (old(self).responses.spec_items().len() < old(self).responses.spec_capacity()),
            r ==> final(self).responses.spec_items() == old(self).responses.spec_items().push(
                text,
            ),
            !r ==> final(self).responses.spec_items() == old(self).responses.spec_items(),
            final(self).requests == old(self).requests,
            final(self).stream_chunks == old(self).stream_chunks,
            final(self).active == old(self).active,
    {
        self.responses.try_enqueue(text)
    }

    /// Caller side: poll the response channel.
    pub fn get_response(&mut self) -> (r: Option<String>)
        requires
            old(self).wf(),
        ensures
            final(self).wf(),
            r is Some <==> old(self).responses.spec_items().len() > 0,
            r is Some ==> r->0 == old(self).responses.spec_items()[0] && final(self).responses.spec_items() == old(self).responses.spec_items().skip(1),
            r is None ==> final(self).responses.spec_items() == old(self).responses.spec_items(),
            final(self).requests == old(self).requests,
            final(self).stream_chunks == old(self).stream_chunks,
            final(self).active == old(self).active,
    {
        self.responses.dequeue()
    }

    /// Caller side: pop the oldest stream fragment or sentinel, if any.
    pub fn get_stream_chunk(&mut self) -> (r: Option<String>)
        ensures
            r is Some <==> old(self).stream_chunks@.len() > 0,
            r is Some ==> r->0 == old(self).stream_chunks@[0] && final(self).stream_chunks@
                == old(self).stream_chunks@.skip(1),
            r is None ==> final(self).stream_chunks@ == old(self).stream_chunks@,
            final(self).requests == old(self).requests,
            final(self).responses == old(self).responses,
            final(self).active == old(self).active,
    {
        self.stream_chunks.pop_front()
    }

    /// Split an already-complete response into its SSE lines and append the
    /// payload of every `data: `-prefixed line, in line order, to the
    /// stream-chunk buffer. Unlike a live session, nothing here parses or
    /// terminates: payloads go through verbatim.
    pub fn process_stream_response(&mut self, response: &str)
        ensures
            str_views(final(self).stream_chunks@) == str_views(old(self).stream_chunks@)
                + spec_data_payloads(spec_lines(response@)),
            final(self).requests == old(self).requests,
            final(self).responses == old(self).responses,
            final(self).active == old(self).active,
    {
        let lines = split_lines(response);
        let ghost all = str_views(lines@);
        let n = lines.len();
        let mut i: usize = 0;
        let ghost mut emitted: Seq<Seq<char>> = Seq::empty();
        proof {
            assert(all.skip(0) =~= all);
            assert(emitted + spec_data_payloads(all) =~= spec_data_payloads(all));
        }
        while i < n
            invariant
                n == lines@.len(),
                i <= n,
                all == str_views(lines@),
                all == spec_lines(response@),
                str_views(self.stream_chunks@) == str_views(old(self).stream_chunks@) + emitted,
                spec_data_payloads(all) == emitted + spec_data_payloads(all.skip(i as int)),
                self.requests == old(self).requests,
                self.responses == old(self).responses,
                self.active == old(self).active,
            decreases n - i,
        {
            let line = &lines[i];
            proof {
                assert(all.skip(i as int)[0] == all[i as int]);
                assert(all[i as int] == line@);
                assert(all.skip(i as int).skip(1) =~= all.skip(i as int + 1));
                reveal_strlit("data: ");
            }
            if crate::text::has_prefix(line.as_str(), "data: ") {
                let ln = line.as_str().unicode_len();
                let payload = line.as_str().substring_char(6, ln).to_owned();
                proof {
                    assert(payload@ =~= line@.skip("data: "@.len() as int));
                    crate::text::lemma_str_views_push(self.stream_chunks@, payload);
                    emitted = emitted.push(payload@);
                }
                self.stream_chunks.push_back(payload);
                proof {
                    assert(str_views(self.stream_chunks@) =~= str_views(old(self).stream_chunks@)
                        + emitted);
                    assert(emitted + spec_data_payloads(all.skip(i as int + 1))
                        =~= emitted.drop_last() + (seq![line@.skip("data: "@.len() as int)]
                        + spec_data_payloads(all.skip(i as int + 1))));
                }
            }
            i = i + 1;
        }
        proof {
            assert(all.skip(n as int).len() == 0);
            assert(emitted + spec_data_payloads(all.skip(n as int)) =~= emitted);
        }
    }

    /// True exactly when no envelope is in flight.
    pub fn is_idle(&self) -> (r: bool)
        ensures
            r == (self.active.spec_count() == 0),
    {
        self.active.is_idle()
    }
}

} // verus!
