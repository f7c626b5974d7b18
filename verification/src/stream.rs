//! The response parser: an SSE session that turns body chunks into ordered
//! text fragments ending in a terminal sentinel, and a non-streaming
//! accumulator that accepts the first byte prefix that parses as one
//! complete JSON document.

use vstd::prelude::*;
use crate::json::{Json, Seg, parsed_json, utf8_text, spec_text_at, parse_json, text_of_bytes,
    extract_text};
use crate::text::{spec_is_prefix, spec_lines, str_views, split_lines, has_prefix};
use std::collections::VecDeque;

verus! {

/// The fragment a `data: `-prefixed line yields: its payload parsed as JSON
/// and navigated along the streamed-delta field path. Any failure yields no
/// fragment.
pub open spec fn spec_data_fragment(line: Seq<char>, path: Seq<Seg>) -> Option<Seq<char>> {
    if spec_is_prefix("data: "@, line) {
        match parsed_json(line.skip("data: "@.len() as int)) {
            Some(j) => spec_text_at(j, path),
            None => None,
        }
    } else {
        None
    }
}

/// The fragments a run of lines appends to the stream-chunk buffer, and
/// whether the run hit the terminator. An empty line is skipped; a line
/// equal to the terminator appends the sentinel and ends the run at once; a
/// data line that yields a fragment appends it; every other line is ignored.
pub open spec fn spec_sse_run(lines: Seq<Seq<char>>, marker: Seq<char>, path: Seq<Seg>) -> (
    Seq<Seq<char>>,
    bool,
)
    decreases lines.len(),
{
    if lines.len() == 0 {
        (Seq::empty(), false)
    } else {
        let l = lines[0];
        if l.len() == 0 {
            spec_sse_run(lines.skip(1), marker, path)
        } else if l == marker {
            (seq!["[DONE]"@], true)
        } else {
            match spec_data_fragment(l, path) {
                Some(t) => {
                    let rest = spec_sse_run(lines.skip(1), marker, path);
                    (seq![t] + rest.0, rest.1)
                },
                None => spec_sse_run(lines.skip(1), marker, path),
            }
        }
    }
}

/// One streamed response in flight. Once the terminator line has been seen,
/// the session is done and every later byte of the body is discarded.
pub struct StreamSession {
    done: bool,
}

impl StreamSession {
    pub closed spec fn spec_done(self) -> bool {
        self.done
    }

    pub fn new() -> (r: StreamSession)
        ensures
            !r.spec_done(),
    {
        StreamSession { done: false }
    }

    pub fn is_done(&self) -> (r: bool)
        ensures
            r == self.spec_done(),
    {
        self.done
    }

    /// Consume one body chunk: split it into lines and append the fragments
    /// they yield, in line order, to the stream-chunk buffer. After the
    /// terminator nothing is appended ever again.
    pub fn feed(
        &mut self,
        text: &str,
        marker: &String,
        path: &Vec<Seg>,
        chunks: &mut VecDeque<String>,
    )
        ensures
            old(self).spec_done() ==> final(self).spec_done() && final(chunks)@ == old(chunks)@,
            !old(self).spec_done() ==> ({
                let run = spec_sse_run(spec_lines(text@), marker@, path@);
                &&& str_views(final(chunks)@) == str_views(old(chunks)@) + run.0
                &&& final(self).spec_done() == run.1
            }),
    {
        if self.done {
            return ;
        }
        let lines = split_lines(text);
        let ghost all = str_views(lines@);
        let ghost run = spec_sse_run(all, marker@, path@);
        let n = lines.len();
        let mut i: usize = 0;
        let ghost mut emitted: Seq<Seq<char>> = Seq::empty();
        proof {
            assert(all.skip(0) =~= all);
            assert(emitted + run.0 =~= run.0);
        }
        while i < n
            invariant
                n == lines@.len(),
                i <= n,
                all == str_views(lines@),
                all == spec_lines(text@),
                run == spec_sse_run(all, marker@, path@),
                !old(self).spec_done(),
                !self.done,
                str_views(chunks@) == str_views(old(chunks)@) + emitted,
                run.0 == emitted + spec_sse_run(all.skip(i as int), marker@, path@).0,
                run.1 == spec_sse_run(all.skip(i as int), marker@, path@).1,
            decreases n - i,
        {
            let line = &lines[i];
            proof {
                assert(all.skip(i as int)[0] == all[i as int]);
                assert(all[i as int] == line@);
                assert(all.skip(i as int).skip(1) =~= all.skip(i as int + 1));
            }
            if line.as_str().is_empty() {
                // an empty line is skipped
            } else if line.eq(marker) {
                let sentinel = "[DONE]".to_owned();
                proof {
                    crate::text::lemma_str_views_push(chunks@, sentinel);
                }
                chunks.push_back(sentinel);
                self.done = true;
                proof {
                    assert(spec_sse_run(all.skip(i as int), marker@, path@) == (
                    seq!["[DONE]"@],
                    true,
                    ));
                    assert(emitted.push("[DONE]"@) =~= emitted + seq!["[DONE]"@]);
                    assert(str_views(chunks@) =~= str_views(old(chunks)@) + emitted.push(
                        "[DONE]"@,
                    ));
                    assert(run.0 =~= emitted + seq!["[DONE]"@]);
                }
                return ;
            } else {
                let ls = line.as_str();
                proof {
                    reveal_strlit("data: ");
                }
                if has_prefix(ls, "data: ") {
                    let ln = ls.unicode_len();
                    let payload = ls.substring_char(6, ln);
                    proof {
                        assert(payload@ =~= line@.skip("data: "@.len() as int));
                    }
                    let parsed = parse_json(payload);
                    match parsed {
                        Some(j) => {
                            match extract_text(&j, path) {
                                Some(t) => {
                                    proof {
                                        assert(spec_data_fragment(line@, path@) == Some(t@));
                                        crate::text::lemma_str_views_push(chunks@, t);
                                        emitted = emitted.push(t@);
                                    }
                                    chunks.push_back(t);
                                    proof {
                                        assert(str_views(chunks@) =~= str_views(old(chunks)@)
                                            + emitted);
                                        assert(emitted + spec_sse_run(
                                            all.skip(i as int + 1),
                                            marker@,
                                            path@,
                                        ).0 =~= emitted.drop_last() + (seq![t@] + spec_sse_run(
                                            all.skip(i as int + 1),
                                            marker@,
                                            path@,
                                        ).0));
                                    }
                                },
                                None => {
                                    proof {
                                        assert(spec_data_fragment(line@, path@) is None);
                                    }
                                },
                            }
                        },
                        None => {
                            proof {
                                assert(spec_data_fragment(line@, path@) is None);
                            }
                        },
                    }
                } else {
                    proof {
                        assert(spec_data_fragment(line@, path@) is None);
                    }
                }
            }
            i = i + 1;
        }
        proof {
            assert(all.skip(n as int).len() == 0);
            assert(emitted + spec_sse_run(all.skip(n as int), marker@, path@).0 =~= emitted);
        }
    }
}

/// What a byte prefix of a non-streaming body yields: its text, exactly when
/// the bytes are UTF-8 and that text parses as one complete JSON document.
pub open spec fn spec_complete_body(b: Seq<u8>) -> Option<Seq<char>> {
    match utf8_text(b) {
        Some(t) => if parsed_json(t) is Some {
            Some(t)
        } else {
            None
        },
        None => None,
    }
}

/// A non-streaming response in flight: body bytes accumulate across chunks,
/// and the first chunk boundary at which the buffer so far parses as one
/// complete JSON document delivers that text. Every later byte is discarded
/// — a body whose proper prefix parses on its own is accepted early, as the
/// engine has always done.
pub struct CompletionAccumulator {
    buf: Vec<u8>,
    done: bool,
}

impl CompletionAccumulator {
    pub closed spec fn spec_buf(self) -> Seq<u8> {
        self.buf@
    }

    pub closed spec fn spec_done(self) -> bool {
        self.done
    }

    pub fn new() -> (r: CompletionAccumulator)
        ensures
            r.spec_buf() == Seq::<u8>::empty(),
            !r.spec_done(),
    {
        CompletionAccumulator { buf: Vec::new(), done: false }
    }

    /// Consume one body chunk. Returns the complete response text at the
    /// first chunk boundary where the buffer so far parses, and nothing
    /// before or after.
    pub fn feed(&mut self, chunk: &Vec<u8>) -> (r: Option<String>)
        ensures
            old(self).spec_done() ==> *final(self) == *old(self) && r is None,
            !old(self).spec_done() ==> ({
                let b = old(self).spec_buf() + chunk@;
                &&& final(self).spec_buf() == b
                &&& (r is Some <==> spec_complete_body(b) is Some)
                &&& (r is Some ==> Some(r->0@) == spec_complete_body(b))
                &&& final(self).spec_done() == (r is Some)
            }),
    {
        if self.done {
            return None;
        }
        let m = chunk.len();
        let mut k: usize = 0;
        proof {
            assert(self.buf@ =~= old(self).buf@ + chunk@.subrange(0, 0));
        }
        while k < m
            invariant
                m == chunk@.len(),
                k <= m,
                !self.done,
                self.buf@ == old(self).buf@ + chunk@.subrange(0, k as int),
            decreases m - k,
        {
            let byte: u8 = chunk[k];
            self.buf.push(byte);
            proof {
                assert(old(self).buf@ + chunk@.subrange(0, k as int + 1) =~= (old(self).buf@
                    + chunk@.subrange(0, k as int)).push(byte));
            }
            k = k + 1;
        }
        proof {
            assert(chunk@.subrange(0, m as int) =~= chunk@);
        }
        match text_of_bytes(&self.buf) {
            Some(t) => {
                match parse_json(t.as_str()) {
                    Some(_) => {
                        self.done = true;
                        Some(t)
                    },
                    None => None,
                }
            },
            None => None,
        }
    }
}

} // verus!
