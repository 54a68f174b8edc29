use tajo::constant::VECTOR_SIZE;
use tajo::exec::delim_text_scanner;
use tajo::exec::text_scanner;
use tajo::exec::text_scanner::{StrSlice, BUF_SIZE};
use tajo::schema::{Column, Schema};
use tajo::types::Ty;

fn text_schema() -> Schema {
    let mut s = Schema::new(Vec::new());
    s.add(Column::new("c1", Ty::Text));
    s.add(Column::new("c2", Ty::Text));
    s
}

#[test]
fn delim_text_scanner_test_find_first_record_index() {
    let s = delim_text_scanner::DelimTextScanner::new("/tmp/dummy", '\n' as u8);

    assert_eq!(4, s.find_first_record_index("abc\nbb").unwrap());
    assert_eq!(1, s.find_first_record_index("\nabc\nbb").unwrap());
    assert_eq!(2, s.find_first_record_index("\r\nabc\nbb").unwrap());
    assert!(s.find_first_record_index("aaaaabcabbb").is_none());
}

#[test]
fn test_next_line_indxes() {
    let s = delim_text_scanner::DelimTextScanner::new("/tmp/dummy", '\n' as u8);

    let mut delim_indexes: Vec<usize> = Vec::new();
    let r1 = s.next_line_indexes("abc\nbb\nabcdef\nabcd", &mut delim_indexes, 10);
    assert_eq!(3, r1.0);
    assert_eq!(13, r1.1);

    delim_indexes.clear();

    let r2 = s.next_line_indexes("a\nb\nabcde\n", &mut delim_indexes, 10);
    assert_eq!(3, r2.0);
    assert_eq!(9, r2.1);
}

#[test]
fn test_next_line_indexes_stops_at_the_limit() {
    let s = delim_text_scanner::DelimTextScanner::new("/tmp/dummy", b'|');
    let mut delim_indexes: Vec<usize> = vec![77];
    let r = s.next_line_indexes("a\nb\nabcde\nxx\n", &mut delim_indexes, 2);
    assert_eq!(r.0, 2);
    assert_eq!(delim_indexes, vec![77, 1, 3]);
    // the entry at the place before the number found
    assert_eq!(r.1, 1);
    let mut none: Vec<usize> = Vec::new();
    assert_eq!(s.next_line_indexes("abc", &mut none, 5), (0, usize::MAX));
    assert!(none.is_empty());
}

#[test]
fn text_scanner_test_find_first_record_index() {
    let s = text_scanner::DelimTextScanner::new(text_schema(), None, '\n' as u8);

    assert_eq!(4, s.find_first_record_index("abc\nbb".as_bytes()).unwrap());
    assert_eq!(1, s.find_first_record_index("\nabc\nbb".as_bytes()).unwrap());
    assert_eq!(2, s.find_first_record_index("\r\nabc\nbb".as_bytes()).unwrap());
    assert!(s.find_first_record_index("aaaaabcabbb".as_bytes()).is_none());
}

#[test]
fn test_str_array() {
    let mut slices: Vec<&str> = vec![""; VECTOR_SIZE];
    assert_eq!(slices.len(), 1024);

    slices[0] = "abc";
}

#[test]
fn test_read_line_batch() {
    let mut s = text_scanner::DelimTextScanner::new(text_schema(), None, b'|');
    assert_eq!(s.read_line_num(), 0);
    assert_eq!(s.line_slices().len(), VECTOR_SIZE);
    assert_eq!(s.field_slices().len(), 2);
    s.load("1|ab|\n22|c|d\n333".as_bytes());
    let last = s.read_line_batch();
    assert_eq!(last, 12);
    assert_eq!(s.read_line_num(), 2);
    assert_eq!(s.line_slices()[0], StrSlice { start: 0, len: 5 });
    assert_eq!(s.line_slices()[1], StrSlice { start: 6, len: 6 });
    s.parse_fields(0);
    assert_eq!(s.field_slices()[0], StrSlice { start: 0, len: 1 });
    assert_eq!(s.field_slices()[1], StrSlice { start: 2, len: 2 });
    s.parse_fields(1);
    assert_eq!(s.field_slices()[0], StrSlice { start: 6, len: 2 });
    assert_eq!(s.field_slices()[1], StrSlice { start: 9, len: 1 });
}

#[test]
fn test_read_line_batch_without_a_line() {
    let mut s = text_scanner::DelimTextScanner::new(text_schema(), None, b'|');
    s.load("no line ends here".as_bytes());
    assert_eq!(s.read_line_batch(), usize::MAX);
    assert_eq!(s.read_line_num(), 0);
}

#[test]
fn test_read_line_batch_takes_at_most_a_vector_of_lines() {
    let mut s = text_scanner::DelimTextScanner::new(text_schema(), None, b'|');
    let text: Vec<u8> = vec![b'\n'; 3000];
    s.load(&text);
    assert_eq!(s.read_line_batch(), VECTOR_SIZE - 1);
    assert_eq!(s.read_line_num(), VECTOR_SIZE);
    assert_eq!(s.line_slices()[VECTOR_SIZE - 1], StrSlice { start: 1023, len: 0 });
    assert_eq!(BUF_SIZE, 65536);
}

#[test]
fn test_scanner_schemas() {
    let mut read = Schema::new(Vec::new());
    read.add(Column::new("c2", Ty::Text));
    let s = text_scanner::DelimTextScanner::new(text_schema(), Some(read), b'|');
    assert_eq!(s.in_schema().size(), 2);
    assert_eq!(s.out_schema().size(), 1);
    let all = text_scanner::DelimTextScanner::new(text_schema(), None, b'|');
    assert_eq!(all.out_schema().size(), 2);
}
