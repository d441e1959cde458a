use rms_check::folds::{FoldKind, FoldRange, FoldingRanges};
use rms_check::highlight::{highlight_segments, Highlight, Segment};
use rms_check::{ByteIndex, FileId, RMSFile};

fn folds(source: &str) -> Vec<FoldRange> {
    let file = RMSFile::from_string("folds.rms", source);
    let mut ranges = FoldingRanges::new(&file);
    let mut all = vec![];
    while let Some(range) = ranges.next() {
        all.push(range);
    }
    all
}

#[test]
fn folds_block() {
    assert_eq!(
        folds("create_object A {\n  number_of_objects 5\n}\n"),
        vec![FoldRange {
            start_line: 1,
            end_line: 1,
            start_character: Some(0),
            end_character: Some(21),
            kind: None,
        }]
    );
}

#[test]
fn folds_comment() {
    assert_eq!(
        folds("/* a\n b */"),
        vec![FoldRange {
            start_line: 0,
            end_line: 1,
            start_character: None,
            end_character: None,
            kind: Some(FoldKind::Comment),
        }]
    );
    assert!(folds("/* one line */").is_empty());
}

#[test]
fn folds_if_else() {
    let ranges = folds("if X\n#define Y\nelse\n#define Z\nendif");
    assert_eq!(ranges.len(), 2);
    assert_eq!((ranges[0].start_line, ranges[0].end_line), (0, 1));
    assert_eq!((ranges[1].start_line, ranges[1].end_line), (2, 4));
}

#[test]
fn folds_random() {
    let ranges = folds("start_random\npercent_chance 50\n#define A\npercent_chance 50\n#define B\nend_random");
    let lines: Vec<(usize, usize)> = ranges.iter().map(|r| (r.start_line, r.end_line)).collect();
    assert_eq!(lines, vec![(1, 2), (3, 4), (0, 5)]);
}

#[test]
fn highlight_if() {
    assert_eq!(
        highlight_segments("if X"),
        vec![
            Segment { start: 0, end: 0, style: Highlight::Plain },
            Segment { start: 0, end: 2, style: Highlight::Keyword },
            Segment { start: 2, end: 3, style: Highlight::Plain },
            Segment { start: 3, end: 4, style: Highlight::Const },
            Segment { start: 4, end: 4, style: Highlight::Plain },
        ]
    );
}

#[test]
fn highlight_covers_source() {
    let source = "<PLAYER_SETUP>\n  random_placement /* note */\n#define X\nland_percent 10 GARBAGE";
    let segments = highlight_segments(source);
    let mut pos = 0;
    let mut rebuilt = String::new();
    for s in &segments {
        assert_eq!(s.start, pos);
        rebuilt.push_str(&source[s.start..s.end]);
        pos = s.end;
    }
    assert_eq!(pos, source.len());
    assert_eq!(rebuilt, source);
    assert!(segments.contains(&Segment { start: 0, end: 14, style: Highlight::Section }));
    assert!(segments.iter().any(|s| s.style == Highlight::Number && &source[s.start..s.end] == "10"));
    assert!(segments.iter().any(|s| s.style == Highlight::Comment && &source[s.start..s.end] == " note "));
}

#[test]
fn get_location_lines_and_columns() {
    let file = RMSFile::from_string("a.rms", "ab\ncd");
    assert_eq!(file.get_location(FileId::new(0), ByteIndex::from(0)), Some((0, 0)));
    assert_eq!(file.get_location(FileId::new(0), ByteIndex::from(4)), Some((1, 1)));
    assert_eq!(file.get_location(FileId::new(0), ByteIndex::from(5)), Some((1, 2)));
    assert_eq!(file.get_location(FileId::new(0), ByteIndex::from(6)), None);
    assert_eq!(file.get_location(FileId::new(9), ByteIndex::from(0)), None);
}

#[test]
fn highlight_covers_unclosed_comments() {
    let source = "/*/ x */ if A\n/* open  ";
    let segments = highlight_segments(source);
    let mut pos = 0;
    for s in &segments {
        assert_eq!(s.start, pos);
        pos = s.end;
    }
    assert_eq!(pos, source.len());
    assert_eq!(segments[1], Segment { start: 0, end: 3, style: Highlight::Comment });
    assert_eq!(segments[3], Segment { start: 3, end: 6, style: Highlight::Comment });
    assert_eq!(segments.last(), Some(&Segment { start: 23, end: 23, style: Highlight::Plain }));
}
