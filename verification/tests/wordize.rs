use rms_check::{split_words, ByteIndex, FileId, Tokenizer};

fn file(source: &str) -> (FileId, &str) {
    (FileId::new(0), source)
}

#[test]
fn wordize_split_words() {
    let (file_id, source) = file("simple test words");
    let mut tokenizer = Tokenizer::new(file_id, source);
    let word = tokenizer.next().unwrap();
    assert_eq!(word.value, "simple");
    assert_eq!(word.start(), ByteIndex::from(0));
    assert_eq!(word.end(), ByteIndex::from(6));
    let word = tokenizer.next().unwrap();
    assert_eq!(word.value, "test");
    assert_eq!(word.start(), ByteIndex::from(7));
    assert_eq!(word.end(), ByteIndex::from(11));
    let word = tokenizer.next().unwrap();
    assert_eq!(word.value, "words");
    assert_eq!(word.start(), ByteIndex::from(12));
    assert_eq!(word.end(), ByteIndex::from(17));
}

#[test]
fn wordize_split_words_with_chars() {
    let (file_id, source) = file("n/*ot \n \t  a*/comment");
    let mut tokenizer = Tokenizer::new(file_id, source);
    let word = tokenizer.next().unwrap();
    assert_eq!(word.value, "n/*ot");
    assert_eq!(word.start(), ByteIndex::from(0));
    assert_eq!(word.end(), ByteIndex::from(5));
    let word = tokenizer.next().unwrap();
    assert_eq!(word.value, "a*/comment");
    assert_eq!(word.start(), ByteIndex::from(11));
    assert_eq!(word.end(), ByteIndex::from(21));
}

#[test]
fn tokenizer_ends_after_last_word() {
    let mut tokenizer = Tokenizer::new(FileId::new(3), "  one  ");
    let word = tokenizer.next().unwrap();
    assert_eq!(word.value, "one");
    assert_eq!(word.location.file, FileId::new(3));
    assert!(tokenizer.next().is_none());
    assert!(tokenizer.next().is_none());
}

#[test]
fn split_words_empty_and_whitespace() {
    assert!(split_words(FileId::new(0), "").is_empty());
    assert!(split_words(FileId::new(0), " \t\r\n ").is_empty());
    let words = split_words(FileId::new(0), "a\u{a0}b c");
    assert_eq!(words.len(), 2);
    assert_eq!(words[0].value, "a\u{a0}b");
    assert_eq!(words[1].start(), ByteIndex::from(5));
}
