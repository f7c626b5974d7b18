use std::collections::VecDeque;
use bhumi::base_llm::BaseLLM;
use bhumi::config::BaseLLMConfig;
use bhumi::json::segs_of_path;
use bhumi::stream::StreamSession;
use bhumi::text::split_lines;
use bhumi::Seg;

fn delta_path() -> Vec<Seg> {
    segs_of_path(&BaseLLMConfig::default().stream_field_path)
}

#[test]
fn fragments_come_in_line_order_and_stop_at_the_sentinel() {
    let marker = "data: [DONE]".to_string();
    let path = delta_path();
    let mut chunks: VecDeque<String> = VecDeque::new();
    let mut session = StreamSession::new();
    let body = "data: {\"choices\":[{\"delta\":{\"content\":\"A\"}}]}\ndata: {\"choices\":[{\"delta\":{\"content\":\"B\"}}]}\ndata: [DONE]\ndata: {\"choices\":[{\"delta\":{\"content\":\"C\"}}]}\n";
    session.feed(body, &marker, &path, &mut chunks);
    assert!(session.is_done());
    let got: Vec<String> = chunks.iter().cloned().collect();
    assert_eq!(got, vec!["A".to_string(), "B".to_string(), "[DONE]".to_string()]);
    // nothing is ever appended after the sentinel
    session.feed("data: {\"choices\":[{\"delta\":{\"content\":\"D\"}}]}\n", &marker, &path, &mut chunks);
    assert_eq!(chunks.len(), 3);
}

#[test]
fn empty_lines_skipped_and_other_lines_ignored() {
    let marker = "data: [DONE]".to_string();
    let path = delta_path();
    let mut chunks: VecDeque<String> = VecDeque::new();
    let mut session = StreamSession::new();
    let body = "\n: comment\ndata: not json at all\ndata: {\"choices\":[{\"delta\":{}}]}\ndata: {\"choices\":[{\"delta\":{\"content\":\"ok\"}}]}\n";
    session.feed(body, &marker, &path, &mut chunks);
    assert!(!session.is_done());
    let got: Vec<String> = chunks.iter().cloned().collect();
    assert_eq!(got, vec!["ok".to_string()]);
}

#[test]
fn a_chunk_boundary_between_lines_keeps_order() {
    let marker = "data: [DONE]".to_string();
    let path = delta_path();
    let mut chunks: VecDeque<String> = VecDeque::new();
    let mut session = StreamSession::new();
    session.feed("data: {\"choices\":[{\"delta\":{\"content\":\"one\"}}]}\n", &marker, &path, &mut chunks);
    assert!(!session.is_done());
    session.feed("data: [DONE]\n", &marker, &path, &mut chunks);
    assert!(session.is_done());
    let got: Vec<String> = chunks.iter().cloned().collect();
    assert_eq!(got, vec!["one".to_string(), "[DONE]".to_string()]);
}

#[test]
fn process_stream_chunk_reads_one_line() {
    let llm = BaseLLM::new(BaseLLMConfig::default());
    assert_eq!(llm.process_stream_chunk("data: [DONE]"), Some("[DONE]".to_string()));
    assert_eq!(
        llm.process_stream_chunk("data: {\"choices\":[{\"delta\":{\"content\":\"hi\"}}]}"),
        Some("hi".to_string())
    );
    assert_eq!(llm.process_stream_chunk("data: {\"choices\":[]}"), None);
    assert_eq!(llm.process_stream_chunk("event: ping"), None);
    assert_eq!(llm.process_stream_chunk("data: {broken"), None);
}

#[test]
fn queue_and_pop_chunks_in_order() {
    let mut llm = BaseLLM::new(BaseLLMConfig::default());
    llm.queue_chunk("a".to_string());
    llm.queue_chunk("b".to_string());
    assert_eq!(llm.pop_chunk(), Some("a".to_string()));
    assert_eq!(llm.pop_chunk(), Some("b".to_string()));
    assert_eq!(llm.pop_chunk(), None);
}

#[test]
fn split_lines_matches_sse_framing() {
    let lines = split_lines("a\r\nb\nc");
    assert_eq!(lines, vec!["a".to_string(), "b".to_string(), "c".to_string()]);
    let trailing = split_lines("x\r");
    assert_eq!(trailing, vec!["x\r".to_string()]);
    let empty: Vec<String> = split_lines("");
    assert!(empty.is_empty());
    let blank = split_lines("\n\n");
    assert_eq!(blank, vec!["".to_string(), "".to_string()]);
}
