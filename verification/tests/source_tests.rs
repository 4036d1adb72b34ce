use hawk::csv_source::CsvIonIterator;
use hawk::eval::evaluate;
use hawk::parser::parse;
use hawk::value::Value;

#[test]
fn csv_rows_become_records() {
    let data = "5,foo\n7,bar\n";
    let reader = csv::ReaderBuilder::new().has_headers(false).from_reader(data.as_bytes());
    let mut it = CsvIonIterator::new(reader).unwrap();
    assert_eq!(it.get_header(0), None);

    let query = parse("$1 == 5").unwrap();
    let first = it.next_record().unwrap().unwrap();
    assert_eq!(first.field_count(), 2);
    assert!(matches!(evaluate(&first, &query), Ok(Value::Bool(true))));

    let second = it.next_record().unwrap().unwrap();
    assert!(matches!(evaluate(&second, &query), Ok(Value::Bool(false))));

    assert!(it.next_record().is_none());
}

#[test]
fn csv_headers_are_kept() {
    let data = "id,name\n5,foo\n";
    let reader = csv::ReaderBuilder::new().has_headers(true).from_reader(data.as_bytes());
    let mut it = CsvIonIterator::new(reader).unwrap();
    assert_eq!(it.get_header(0), Some("id"));
    assert_eq!(it.get_header(1), Some("name"));
    assert_eq!(it.get_header(2), None);

    // the header row is not handed out as data
    let first = it.next_record().unwrap().unwrap();
    assert_eq!(first.field_count(), 2);
    let query = parse("$1 == 5").unwrap();
    assert!(matches!(evaluate(&first, &query), Ok(Value::Bool(true))));
    assert!(it.next_record().is_none());
}
