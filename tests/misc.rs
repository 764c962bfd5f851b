use poleshift::account::{local_part_of_email, UpdateType};
use poleshift::database::DbManager;
use poleshift::fastq::{trim_line, FastqError, FastqReader, FastqRecord, ParseError, Validate};
use poleshift::progress::ByteCounter;

fn lines(s: &[&str]) -> Vec<String> {
    s.iter().map(|l| l.to_string()).collect()
}

#[test]
fn fastq_records_are_collected() {
    let mut r = FastqReader::new(lines(&["@read1 x=1", "ACGT", "+", "IIII", "  @read2 ", "GG\r", "+r", "!!"]));
    let recs = r.collect_records().unwrap();
    assert_eq!(recs.len(), 2);
    assert_eq!(recs[0].header, "@read1 x=1");
    assert_eq!(recs[0].sequence, "ACGT");
    assert_eq!(recs[0].quality, b"IIII".to_vec());
    assert_eq!(recs[1].header, "@read2");
    assert_eq!(recs[1].sequence, "GG");
    assert_eq!(recs[1].quality, b"!!".to_vec());
}

#[test]
fn fastq_structure_errors() {
    let e = |ls: &[&str]| match FastqReader::new(lines(ls)).collect_records() {
        Err(ParseError::Fastq(e)) => e,
        other => panic!("unexpected {:?}", other),
    };
    assert_eq!(e(&["read1"]), FastqError::MissingHeader);
    assert_eq!(e(&["@r"]), FastqError::MissingSequence);
    assert_eq!(e(&["@r", "AC"]), FastqError::MissingQuality);
    assert_eq!(e(&["@r", "AC", "-", "II"]), FastqError::MissingQuality);
    assert_eq!(e(&["@r", "AC", "+"]), FastqError::MissingQuality);
    assert_eq!(e(&["@r", "AC", "+", "II", ""]), FastqError::MissingHeader);
    assert!(FastqReader::new(vec![]).collect_records().unwrap().is_empty());
}

#[test]
fn fastq_validation() {
    let rec = |h: &str, s: &str, q: &[u8]| FastqRecord {
        header: h.to_string(),
        sequence: s.to_string(),
        quality: q.to_vec(),
    };
    assert!(rec("@r", "AC", b"II").validate().is_ok());
    assert!(matches!(rec("", "AC", b"II").validate(), Err(FastqError::MissingHeader)));
    assert!(matches!(rec("@r", "", b"II").validate(), Err(FastqError::MissingSequence)));
    assert!(matches!(rec("@r", "AC", b"").validate(), Err(FastqError::MissingQuality)));
    assert!(matches!(rec("@r", "ACG", b"II").validate(), Err(FastqError::QualityMismatch)));
    assert!(matches!(rec("@r", "AC", &[73, 127]).validate(), Err(FastqError::InvalidQualityScore)));
    assert!(matches!(rec("@r", "AC", &[32, 73]).validate(), Err(FastqError::InvalidQualityScore)));
}

#[test]
fn lines_are_trimmed_of_unicode_white_space() {
    assert_eq!(trim_line(" \t ab c\u{a0}\u{3000}\n"), "ab c");
    assert_eq!(trim_line("   "), "");
    assert_eq!(trim_line("x"), "x");
}

#[test]
fn email_local_parts() {
    assert_eq!(local_part_of_email("ann@example.org"), Ok("ann"));
    assert_eq!(local_part_of_email("a@b@c"), Ok("a"));
    assert_eq!(local_part_of_email("nobody"), Err("Email must contain '@'".to_string()));
    assert_eq!(local_part_of_email("@x.org"), Err("Local part is empty".to_string()));
    assert_eq!(local_part_of_email("ann@"), Err("Domain part is empty".to_string()));
}

#[test]
fn update_type_names() {
    assert_eq!(UpdateType::PUT.as_string(), "PUT");
    assert_eq!(UpdateType::PATCH.as_string(), "PATCH");
    assert_eq!(UpdateType::DELETE.as_string(), "DELETE");
}

#[test]
fn database_check() {
    assert!(DbManager::verify_database(true, true, true));
    assert!(!DbManager::verify_database(false, true, true));
    assert!(!DbManager::verify_database(true, false, true));
    assert!(!DbManager::verify_database(true, true, false));
}

#[test]
fn byte_counter_reports() {
    let mut c = ByteCounter::new(100);
    assert_eq!(c.add(10), (10, 100));
    assert_eq!(c.record_read(0), None);
    assert_eq!(c.record_read(5), Some((15, 100)));
    assert_eq!(c.count(), 15);
}
