use opus_stream::walker::{id_of_path, is_subtitle_name, SeenIds};

fn parts(v: &[&str]) -> Vec<String> {
    v.iter().map(|s| s.to_string()).collect()
}

#[test]
fn subtitle_name_suffix() {
    assert!(is_subtitle_name("12345.xml.gz"));
    assert!(is_subtitle_name(".xml.gz"));
    assert!(!is_subtitle_name("12345.xml"));
    assert!(!is_subtitle_name("12345.gz"));
    assert!(!is_subtitle_name(""));
}

#[test]
fn id_from_grandparent_directory() {
    assert_eq!(id_of_path(&parts(&["corpus", "42", "sub", "1.xml.gz"])), Some(42));
    assert_eq!(id_of_path(&parts(&["7", "a", "b.xml.gz"])), Some(7));
}

#[test]
fn id_missing_or_malformed_is_skipped() {
    assert_eq!(id_of_path(&parts(&["a", "b.xml.gz"])), None);
    assert_eq!(id_of_path(&parts(&["corpus", "year", "sub", "1.xml.gz"])), None);
    assert_eq!(id_of_path(&parts(&[])), None);
}

#[test]
fn seen_ids_first_occurrence_wins() {
    let mut seen = SeenIds::new();
    assert!(seen.insert_new(5));
    assert!(seen.insert_new(9));
    assert!(!seen.insert_new(5));
    assert!(seen.insert_new(6));
    assert!(!seen.insert_new(9));
    assert_eq!(seen.ids, vec![5, 9, 6]);
}
