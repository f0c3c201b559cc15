use efflux::batch::{batch_lines, byte_len, Batcher, DEFAULT_MAX_BYTES};

fn strings(words: &[&str]) -> Vec<String> {
    words.iter().map(|w| w.to_string()).collect()
}

#[test]
fn spec_example_boundaries() {
    // max 10, lengths 5,2,4,1: 5+2=7 fits, 7+4=11 would reach 10, so the
    // first batch closes before "hijk"; 4+1=5 then exhausts the input.
    let lines = strings(&["abcde", "fg", "hijk", "l"]);
    let batches = batch_lines(&lines, 10);
    assert_eq!(batches.len(), 2);
    assert_eq!(batches[0].lines(), &strings(&["abcde", "fg"]));
    assert_eq!(batches[1].lines(), &strings(&["hijk", "l"]));
    assert_eq!(batches[0].size(), 7);
    assert_eq!(batches[1].size(), 5);
}

#[test]
fn empty_input_no_batches() {
    let batches = batch_lines(&Vec::new(), 10);
    assert_eq!(batches.len(), 0);
}

#[test]
fn small_input_single_batch() {
    let lines = strings(&["ab", "cd", "ef"]);
    let batches = batch_lines(&lines, 100);
    assert_eq!(batches.len(), 1);
    assert_eq!(batches[0].lines(), &lines);
    assert_eq!(batches[0].size(), 6);
}

#[test]
fn oversized_single_line_is_one_batch() {
    let lines = strings(&["aaaaaaaaaa"]);
    let batches = batch_lines(&lines, 4);
    assert_eq!(batches.len(), 1);
    assert_eq!(batches[0].lines(), &lines);
    assert_eq!(batches[0].size(), 10);
}

#[test]
fn oversized_line_mid_stream_travels_alone() {
    let lines = strings(&["aaaaaa", "b"]);
    let batches = batch_lines(&lines, 4);
    assert_eq!(batches.len(), 2);
    assert_eq!(batches[0].lines(), &strings(&["aaaaaa"]));
    assert_eq!(batches[1].lines(), &strings(&["b"]));
}

#[test]
fn reaching_the_threshold_exactly_closes_the_batch() {
    // 3 + 2 = 5 is not strictly below 5, so "de" starts the next batch.
    let lines = strings(&["abc", "de"]);
    let batches = batch_lines(&lines, 5);
    assert_eq!(batches.len(), 2);
    assert_eq!(batches[0].lines(), &strings(&["abc"]));
    assert_eq!(batches[1].lines(), &strings(&["de"]));
}

#[test]
fn rerun_reproduces_the_same_boundaries() {
    let lines = strings(&["abcde", "fg", "hijk", "l", "mnopqrstuv", "w"]);
    let first = batch_lines(&lines, 10);
    let second = batch_lines(&lines, 10);
    assert_eq!(first.len(), second.len());
    for (a, b) in first.iter().zip(second.iter()) {
        assert_eq!(a.lines(), b.lines());
        assert_eq!(a.size(), b.size());
    }
}

#[test]
fn concatenation_restores_the_input() {
    let lines = strings(&["abcde", "fg", "hijk", "l", "", "mn"]);
    let batches = batch_lines(&lines, 7);
    let mut rebuilt: Vec<String> = Vec::new();
    for b in batches.iter() {
        rebuilt.extend(b.lines().iter().cloned());
    }
    assert_eq!(rebuilt, lines);
}

#[test]
fn body_appends_newline_after_each_line() {
    let lines = strings(&["abcde", "fg"]);
    let batches = batch_lines(&lines, 100);
    assert_eq!(batches.len(), 1);
    assert_eq!(batches[0].body(), "abcde\nfg\n");
}

#[test]
fn size_counts_line_bytes_not_separators() {
    let lines = strings(&["abcde", "fg"]);
    let batches = batch_lines(&lines, 100);
    assert_eq!(batches[0].size(), 7);
    assert_eq!(batches[0].body().len(), 9);
}

#[test]
fn sizes_are_utf8_byte_lengths() {
    assert_eq!(byte_len(&"abc".to_string()), 3);
    assert_eq!(byte_len(&"\u{e9}".to_string()), 2);
    // two 2-byte lines: 2 + 2 = 4 is not strictly below 3
    let lines = strings(&["\u{e9}", "\u{e9}"]);
    assert_eq!(batch_lines(&lines, 3).len(), 2);
    assert_eq!(batch_lines(&lines, 5).len(), 1);
}

#[test]
fn batcher_emits_exactly_when_a_line_no_longer_fits() {
    let mut batcher = Batcher::new(10);
    assert!(batcher.push_line("abcde".to_string()).is_none());
    assert!(batcher.push_line("fg".to_string()).is_none());
    let emitted = batcher.push_line("hijk".to_string());
    let first = emitted.expect("the third line completes the first batch");
    assert_eq!(first.lines(), &strings(&["abcde", "fg"]));
    assert!(batcher.push_line("l".to_string()).is_none());
    let last = batcher.finish().expect("a partial batch is flushed");
    assert_eq!(last.lines(), &strings(&["hijk", "l"]));
}

#[test]
fn default_threshold_value() {
    assert_eq!(DEFAULT_MAX_BYTES, 972800);
    let lines: Vec<String> = vec!["a".repeat(972799), "b".to_string()];
    let batches = batch_lines(&lines, DEFAULT_MAX_BYTES);
    assert_eq!(batches.len(), 2);
}

#[test]
fn finish_on_fresh_batcher_yields_nothing() {
    let mut batcher = Batcher::new(10);
    assert!(batcher.finish().is_none());
}

#[test]
fn empty_lines_weigh_nothing() {
    let lines = strings(&["", "", ""]);
    let batches = batch_lines(&lines, 1);
    assert_eq!(batches.len(), 1);
    assert_eq!(batches[0].line_count(), 3);
    assert_eq!(batches[0].size(), 0);
    assert_eq!(batches[0].body(), "\n\n\n");
}
