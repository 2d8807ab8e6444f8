use opus_stream::duration::Duration;
use opus_stream::stream::OpusStream;
use opus_stream::translator::Translator;
use opus_stream::{Attr, DelimType, ErrorKind, FlatStreamBit, StreamBit, Token};

fn start(name: &str, attrs: Vec<(&str, &str)>) -> Token {
    Token::StartElement {
        name: name.to_string(),
        attrs: attrs
            .into_iter()
            .map(|(n, v)| Attr {
                name: n.to_string(),
                value: v.to_string(),
            })
            .collect(),
    }
}

fn end(name: &str) -> Token {
    Token::EndElement {
        name: name.to_string(),
    }
}

fn chars(text: &str) -> Token {
    Token::Characters {
        text: text.to_string(),
    }
}

fn feed(t: &mut Translator, tok: Token) -> Option<FlatStreamBit> {
    t.feed_token(tok).expect("token should be accepted")
}

fn assert_same_bit(a: &FlatStreamBit, b: &FlatStreamBit) {
    match (a, b) {
        (FlatStreamBit::EndStream, FlatStreamBit::EndStream) => {}
        (FlatStreamBit::Meta(m1), FlatStreamBit::Meta(m2)) => {
            assert_eq!(m1.entries.len(), m2.entries.len());
            for (e1, e2) in m1.entries.iter().zip(m2.entries.iter()) {
                assert_eq!(e1.attr, e2.attr);
                assert_eq!(e1.cat, e2.cat);
                assert_eq!(e1.value, e2.value);
            }
        }
        (FlatStreamBit::StreamBit(b1), FlatStreamBit::StreamBit(b2)) => match (b1, b2) {
            (StreamBit::SentDelim(d1), StreamBit::SentDelim(d2)) => assert_eq!(d1, d2),
            (StreamBit::BlockDelim(d1), StreamBit::BlockDelim(d2)) => assert_eq!(d1, d2),
            (StreamBit::Word(w1), StreamBit::Word(w2)) => {
                assert_eq!(w1.id, w2.id);
                assert_eq!(w1.word, w2.word);
            }
            _ => panic!("stream events differ in kind"),
        },
        _ => panic!("events differ in kind"),
    }
}

#[test]
fn sentence_start_emits_delimiter() {
    let mut t = Translator::new();
    let bit = feed(&mut t, start("s", vec![("id", "3")])).expect("event expected");
    match bit {
        FlatStreamBit::StreamBit(StreamBit::SentDelim(d)) => {
            assert_eq!(d.id, 3);
            assert_eq!(d.delim_type, DelimType::Start);
        }
        _ => panic!("expected a sentence delimiter"),
    }
    let bit = feed(&mut t, end("s")).expect("event expected");
    match bit {
        FlatStreamBit::StreamBit(StreamBit::SentDelim(d)) => {
            assert_eq!(d.id, 3);
            assert_eq!(d.delim_type, DelimType::End);
        }
        _ => panic!("expected a sentence delimiter"),
    }
}

#[test]
fn sentence_missing_id_is_attributed() {
    let mut t = Translator::new();
    match t.feed_token(start("s", vec![("class", "x")])) {
        Err(ErrorKind::ExpectedAttribute(name)) => assert_eq!(name, "id"),
        _ => panic!("expected a missing-attribute error"),
    }
}

#[test]
fn word_text_emits_word_event() {
    let mut t = Translator::new();
    assert!(feed(&mut t, start("w", vec![("id", "3.12")])).is_none());
    let bit = feed(&mut t, chars("hello")).expect("event expected");
    match bit {
        FlatStreamBit::StreamBit(StreamBit::Word(w)) => {
            assert_eq!(w.id, 12);
            assert_eq!(w.word, "hello");
        }
        _ => panic!("expected a word event"),
    }
    assert!(feed(&mut t, end("w")).is_none());
    // text outside a word is structural and silently consumed
    assert!(feed(&mut t, chars("stray")).is_none());
}

#[test]
fn word_id_takes_last_dot_segment() {
    let mut t = Translator::new();
    assert!(feed(&mut t, start("w", vec![("id", "12.3")])).is_none());
    let bit = feed(&mut t, chars("x")).expect("event expected");
    match bit {
        FlatStreamBit::StreamBit(StreamBit::Word(w)) => assert_eq!(w.id, 3),
        _ => panic!("expected a word event"),
    }
}

#[test]
fn word_id_with_non_numeric_segment_is_rejected() {
    let mut t = Translator::new();
    match t.feed_token(start("w", vec![("id", "s3.w12")])) {
        Err(ErrorKind::ParseIntError(_)) => {}
        _ => panic!("expected an integer-parse error"),
    }
}

#[test]
fn time_tag_emits_block_delimiter() {
    let mut t = Translator::new();
    let bit = feed(
        &mut t,
        start("time", vec![("id", "T1S"), ("value", "00:00:01,000")]),
    )
    .expect("event expected");
    match bit {
        FlatStreamBit::StreamBit(StreamBit::BlockDelim(d)) => {
            assert_eq!(d.id, 1);
            assert_eq!(d.delim_type, DelimType::Start);
            assert_eq!(d.offset, Duration { secs: 1, nanos: 0 });
        }
        _ => panic!("expected a block delimiter"),
    }
}

#[test]
fn time_tag_errors_are_attributed() {
    let mut t = Translator::new();
    match t.feed_token(start("time", vec![("id", "T1X"), ("value", "00:00:01,000")])) {
        Err(ErrorKind::TimeIdParseErr(_)) => {}
        _ => panic!("expected a time-identifier error"),
    }
    match t.feed_token(start("time", vec![("id", "T1S"), ("value", "00:01,000")])) {
        Err(ErrorKind::DurationParseErr(_)) => {}
        _ => panic!("expected a duration error"),
    }
    match t.feed_token(start("time", vec![("id", "T1S")])) {
        Err(ErrorKind::ExpectedAttribute(name)) => assert_eq!(name, "value"),
        _ => panic!("expected a missing-attribute error"),
    }
}

#[test]
fn meta_block_single_entry() {
    let mut t = Translator::new();
    assert!(feed(&mut t, start("meta", vec![])).is_none());
    assert!(feed(&mut t, start("category", vec![])).is_none());
    assert!(feed(&mut t, start("attr", vec![])).is_none());
    assert!(feed(&mut t, chars("value")).is_none());
    assert!(feed(&mut t, end("attr")).is_none());
    assert!(feed(&mut t, end("category")).is_none());
    let bit = feed(&mut t, end("meta")).expect("event expected");
    match bit {
        FlatStreamBit::Meta(m) => {
            assert_eq!(m.entries.len(), 1);
            assert_eq!(m.entries[0].attr, "attr");
            assert_eq!(m.entries[0].cat, "category");
            assert_eq!(m.entries[0].value, "value");
        }
        _ => panic!("expected a metadata event"),
    }
}

#[test]
fn meta_entries_come_out_in_key_order() {
    let mut t = Translator::new();
    assert!(feed(&mut t, start("meta", vec![])).is_none());
    for (cat, attr, value) in [("zoo", "b", "2"), ("alpha", "b", "1"), ("alpha", "a", "0")] {
        assert!(feed(&mut t, start(cat, vec![])).is_none());
        assert!(feed(&mut t, start(attr, vec![])).is_none());
        assert!(feed(&mut t, chars(value)).is_none());
        assert!(feed(&mut t, end(attr)).is_none());
        assert!(feed(&mut t, end(cat)).is_none());
    }
    let bit = feed(&mut t, end("meta")).expect("event expected");
    match bit {
        FlatStreamBit::Meta(m) => {
            let keys: Vec<(&str, &str)> = m
                .entries
                .iter()
                .map(|e| (e.attr.as_str(), e.cat.as_str()))
                .collect();
            assert_eq!(keys, vec![("a", "alpha"), ("b", "alpha"), ("b", "zoo")]);
        }
        _ => panic!("expected a metadata event"),
    }
}

#[test]
fn meta_insert_overwrites_same_key() {
    let mut t = Translator::new();
    assert!(feed(&mut t, start("meta", vec![])).is_none());
    assert!(feed(&mut t, start("c", vec![])).is_none());
    assert!(feed(&mut t, start("a", vec![])).is_none());
    assert!(feed(&mut t, chars("first")).is_none());
    assert!(feed(&mut t, chars("second")).is_none());
    assert!(feed(&mut t, end("a")).is_none());
    assert!(feed(&mut t, end("c")).is_none());
    let bit = feed(&mut t, end("meta")).expect("event expected");
    match bit {
        FlatStreamBit::Meta(m) => {
            assert_eq!(m.entries.len(), 1);
            assert_eq!(m.entries[0].value, "second");
        }
        _ => panic!("expected a metadata event"),
    }
}

#[test]
fn meta_accumulator_resets_between_blocks() {
    let mut t = Translator::new();
    assert!(feed(&mut t, start("meta", vec![])).is_none());
    assert!(feed(&mut t, start("c", vec![])).is_none());
    assert!(feed(&mut t, start("a", vec![])).is_none());
    assert!(feed(&mut t, chars("v")).is_none());
    assert!(feed(&mut t, end("a")).is_none());
    assert!(feed(&mut t, end("c")).is_none());
    match feed(&mut t, end("meta")).expect("event expected") {
        FlatStreamBit::Meta(m) => assert_eq!(m.entries.len(), 1),
        _ => panic!("expected a metadata event"),
    }
    match feed(&mut t, end("meta")).expect("event expected") {
        FlatStreamBit::Meta(m) => assert_eq!(m.entries.len(), 0),
        _ => panic!("expected a metadata event"),
    }
}

#[test]
fn end_document_emits_end_of_stream() {
    let mut t = Translator::new();
    match feed(&mut t, Token::EndDocument).expect("event expected") {
        FlatStreamBit::EndStream => {}
        _ => panic!("expected the end-of-stream marker"),
    }
}

fn minimal_document() -> Vec<u8> {
    b"<document><meta><a><b>x</b></a></meta><s id=\"1\"><time id=\"T1S\" value=\"00:00:01,000\"/><w id=\"1.1\">hi</w></s></document>"
        .to_vec()
}

fn collect_events(data: Vec<u8>) -> Vec<FlatStreamBit> {
    let mut stream = OpusStream::from_bytes(data);
    let mut events = Vec::new();
    loop {
        match stream.step().expect("document should parse") {
            Some(FlatStreamBit::EndStream) => {
                events.push(FlatStreamBit::EndStream);
                return events;
            }
            Some(bit) => events.push(bit),
            None => {}
        }
    }
}

#[test]
fn minimal_document_end_to_end() {
    let events = collect_events(minimal_document());
    assert_eq!(events.len(), 6);
    match &events[0] {
        FlatStreamBit::Meta(m) => {
            assert_eq!(m.entries.len(), 1);
            assert_eq!(m.entries[0].attr, "b");
            assert_eq!(m.entries[0].cat, "a");
            assert_eq!(m.entries[0].value, "x");
        }
        _ => panic!("expected metadata first"),
    }
    match &events[1] {
        FlatStreamBit::StreamBit(StreamBit::SentDelim(d)) => {
            assert_eq!((d.id, d.delim_type), (1, DelimType::Start));
        }
        _ => panic!("expected the sentence start"),
    }
    match &events[2] {
        FlatStreamBit::StreamBit(StreamBit::BlockDelim(d)) => {
            assert_eq!(d.id, 1);
            assert_eq!(d.delim_type, DelimType::Start);
            assert_eq!(d.offset, Duration { secs: 1, nanos: 0 });
        }
        _ => panic!("expected the block start"),
    }
    match &events[3] {
        FlatStreamBit::StreamBit(StreamBit::Word(w)) => {
            assert_eq!(w.id, 1);
            assert_eq!(w.word, "hi");
        }
        _ => panic!("expected the word"),
    }
    match &events[4] {
        FlatStreamBit::StreamBit(StreamBit::SentDelim(d)) => {
            assert_eq!((d.id, d.delim_type), (1, DelimType::End));
        }
        _ => panic!("expected the sentence end"),
    }
    match &events[5] {
        FlatStreamBit::EndStream => {}
        _ => panic!("expected the end-of-stream marker"),
    }
}

#[test]
fn reparsing_same_bytes_gives_equal_events() {
    let first = collect_events(minimal_document());
    let second = collect_events(minimal_document());
    assert_eq!(first.len(), second.len());
    for (a, b) in first.iter().zip(second.iter()) {
        assert_same_bit(a, b);
    }
}

#[test]
fn xml_error_is_surfaced() {
    let mut stream = OpusStream::from_bytes(b"<document><s id=".to_vec());
    loop {
        match stream.step() {
            Ok(Some(FlatStreamBit::EndStream)) => panic!("malformed markup should not end cleanly"),
            Ok(_) => {}
            Err(ErrorKind::XmlParseError(_)) => return,
            Err(e) => panic!("unexpected error kind: {:?}", e),
        }
    }
}

#[test]
fn sentences_pair_and_words_match_texts() {
    let doc = b"<d><s id=\"1\"><w id=\"1.1\">a</w><w id=\"1.2\">b</w></s><s id=\"2\"><w id=\"2.1\">c</w></s></d>"
        .to_vec();
    let events = collect_events(doc);
    let delims: Vec<(u64, DelimType)> = events
        .iter()
        .filter_map(|e| match e {
            FlatStreamBit::StreamBit(StreamBit::SentDelim(d)) => Some((d.id, d.delim_type)),
            _ => None,
        })
        .collect();
    assert_eq!(
        delims,
        vec![
            (1, DelimType::Start),
            (1, DelimType::End),
            (2, DelimType::Start),
            (2, DelimType::End),
        ]
    );
    let words: Vec<(u64, String)> = events
        .iter()
        .filter_map(|e| match e {
            FlatStreamBit::StreamBit(StreamBit::Word(w)) => Some((w.id, w.word.clone())),
            _ => None,
        })
        .collect();
    assert_eq!(
        words,
        vec![(1, "a".to_string()), (2, "b".to_string()), (1, "c".to_string())]
    );
}
