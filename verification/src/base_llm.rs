//! The generic per-provider adapter: one configuration object drives both
//! the streamed-delta and the full-completion extraction, and owns the
//! stream-chunk buffer the caller drains.

use vstd::prelude::*;
use crate::config::BaseLLMConfig;
use crate::json::{parsed_json, spec_text_at, spec_segs, parse_json, extract_text_by_fields};
use crate::text::spec_is_prefix;
use std::collections::VecDeque;

verus! {

/// What one SSE line yields under a marker and a streamed-delta field path:
/// the sentinel on the terminator line; otherwise the text the data
/// payload's parse and navigation yield; otherwise nothing.
pub open spec fn spec_stream_chunk_result(
    marker: Seq<char>,
    path: Seq<String>,
    line: Seq<char>,
) -> Option<Seq<char>> {
    if line == marker {
        Some("[DONE]"@)
    } else if spec_is_prefix("data: "@, line) {
        match parsed_json(line.skip("data: "@.len() as int)) {
            Some(j) => spec_text_at(j, spec_segs(path)),
            None => None,
        }
    } else {
        None
    }
}

/// What a complete response body yields under a completion field path: the
/// text its parse and navigation yield, or nothing.
pub open spec fn spec_completion_result(path: Seq<String>, body: Seq<char>) -> Option<Seq<char>> {
    match parsed_json(body) {
        Some(j) => spec_text_at(j, spec_segs(path)),
        None => None,
    }
}

/// A provider adapter and the stream-chunk buffer it feeds.
pub struct BaseLLM {
    pub config: BaseLLMConfig,
    pub stream_chunks: VecDeque<String>,
}

impl BaseLLM {
    /// The buffered stream chunks, oldest first.
    pub open spec fn spec_chunks(self) -> Seq<String> {
        self.stream_chunks@
    }

    pub fn new(config: BaseLLMConfig) -> (r: BaseLLM)
        ensures
            r.config == config,
            r.spec_chunks() == Seq::<String>::empty(),
    {
        BaseLLM { config, stream_chunks: VecDeque::new() }
    }

    /// Read one SSE line: the terminator yields the sentinel, a `data: `
    /// line yields the text at the streamed-delta field path of its parsed
    /// payload, and anything else — a failed parse or a missed path
    /// included — yields nothing.
    pub fn process_stream_chunk(&self, line: &str) -> (r: Option<String>)
        ensures
            match r {
                Some(t) => spec_stream_chunk_result(
                    self.config.stream_marker@,
                    self.config.stream_field_path@,
                    line@,
                ) == Some(t@),
                None => spec_stream_chunk_result(
                    self.config.stream_marker@,
                    self.config.stream_field_path@,
                    line@,
                ) is None,
            },
    {
        if crate::text::str_eq(line, self.config.stream_marker.as_str()) {
            return Some("[DONE]".to_owned());
        }
        proof {
            reveal_strlit("data: ");
        }
        if crate::text::has_prefix(line, "data: ") {
            let n = line.unicode_len();
            let payload = line.substring_char(6, n);
            proof {
                assert(payload@ =~= line@.skip("data: "@.len() as int));
            }
            match parse_json(payload) {
                Some(j) => extract_text_by_fields(&j, &self.config.stream_field_path),
                None => None,
            }
        } else {
            None
        }
    }

    /// Read a complete (non-streaming) response body: the text at the
    /// completion field path of its parsed document, if the body parses and
    /// the path lands on text.
    pub fn process_completion_response(&self, response: &str) -> (r: Option<String>)
        ensures
            match r {
                Some(t) => spec_completion_result(
                    self.config.content_field_path@,
                    response@,
                ) == Some(t@),
                None => spec_completion_result(
                    self.config.content_field_path@,
                    response@,
                ) is None,
            },
    {
        match parse_json(response) {
            Some(j) => extract_text_by_fields(&j, &self.config.content_field_path),
            None => None,
        }
    }

    /// The URL the provider's completion call goes to: the configured base
    /// joined with the configured request path.
    pub fn request_url(&self) -> (r: String)
        ensures
            r@ == self.config.api_base@ + self.config.model_path@,
    {
        self.config.api_base.clone().concat(self.config.model_path.as_str())
    }

    /// The auth header the provider's call carries, from the configured
    /// `name: prefix` form: the name before the first `": "`, and the value
    /// `prefix key`. A configuration without `": "` yields nothing, and the
    /// caller must treat it as a configuration error.
    pub fn auth_header(&self, api_key: &str) -> (r: Option<(String, String)>)
        ensures
            ({
                let s = self.config.api_key_header@;
                let i = crate::text::first_sep_from(s, 0);
                &&& (r is Some <==> i < s.len())
                &&& r is Some ==> (r->0).0@ == s.subrange(0, i)
                &&& r is Some ==> (r->0).1@ == s.skip(i + 2) + " "@ + api_key@
            }),
    {
        let st = self.config.api_key_header.as_str();
        let n = st.unicode_len();
        let mut i: usize = 0;
        while n >= 2 && i <= n - 2
            invariant
                n == st@.len(),
                st@ == self.config.api_key_header@,
                i <= n,
                forall|k: int| 0 <= k < i ==> !crate::text::sep_at(st@, k),
            decreases n - i,
        {
            if st.get_char(i) == ':' && st.get_char(i + 1) == ' ' {
                proof {
                    crate::text::lemma_first_sep_at(st@, 0, i as int);
                }
                let name = st.substring_char(0, i).to_owned();
                let prefix = st.substring_char(i + 2, n).to_owned();
                let value = prefix.concat(" ").concat(api_key);
                proof {
                    assert(value@ =~= st@.skip(i as int + 2) + " "@ + api_key@);
                }
                return Some((name, value));
            }
            i = i + 1;
        }
        proof {
            crate::text::lemma_first_sep_at(st@, 0, i as int);
        }
        None
    }

    /// Append one fragment to the stream-chunk buffer.
    pub fn queue_chunk(&mut self, chunk: String)
        ensures
            final(self).config == old(self).config,
            final(self).spec_chunks() == old(self).spec_chunks().push(chunk),
    {
        self.stream_chunks.push_back(chunk);
    }

    /// Remove and return the oldest buffered fragment, if any.
    pub fn pop_chunk(&mut self) -> (r: Option<String>)
        ensures
            final(self).config == old(self).config,
            r is Some <==> old(self).spec_chunks().len() > 0,
            r is Some ==> r->0 == old(self).spec_chunks()[0] && final(self).spec_chunks() == old(
                self,
            ).spec_chunks().skip(1),
            r is None ==> final(self).spec_chunks() == old(self).spec_chunks(),
    {
        self.stream_chunks.pop_front()
    }
}

} // verus!
