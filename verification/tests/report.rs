use heart::report::{record_line, result_header, result_record, results_csv};
use heart::points::BenchmarkResult;

fn strings(words: &[&str]) -> Vec<String> {
    words.iter().map(|word| word.to_string()).collect()
}

fn result(duration_ms: u128, write_percentage: i32, size: usize, count: usize) -> BenchmarkResult {
    BenchmarkResult {
        duration_ms,
        write_percentage,
        transaction_size: size,
        transaction_count: count,
    }
}

#[test]
fn plain_fields_are_joined_with_commas() {
    assert_eq!(record_line(&strings(&["a", "b", "c"])), b"a,b,c\n".to_vec());
    assert_eq!(record_line(&strings(&["single"])), b"single\n".to_vec());
    assert_eq!(record_line(&strings(&["", "x", ""])), b",x,\n".to_vec());
    assert_eq!(
        record_line(&strings(&["with space", "tab\there"])),
        b"with space,tab\there\n".to_vec()
    );
}

#[test]
fn special_fields_are_quoted() {
    assert_eq!(record_line(&strings(&["a,b", "c"])), b"\"a,b\",c\n".to_vec());
    assert_eq!(record_line(&strings(&["say \"hi\""])), b"\"say \"\"hi\"\"\"\n".to_vec());
    assert_eq!(record_line(&strings(&["two\nlines", "x"])), b"\"two\nlines\",x\n".to_vec());
    assert_eq!(record_line(&strings(&["cr\rhere"])), b"\"cr\rhere\"\n".to_vec());
}

#[test]
fn an_empty_record_is_written_as_an_empty_quoted_field() {
    assert_eq!(record_line(&strings(&[""])), b"\"\"\n".to_vec());
    assert_eq!(record_line(&Vec::new()), b"\"\"\n".to_vec());
}

#[test]
fn text_beyond_ascii_is_kept() {
    assert_eq!(record_line(&strings(&["wärme", "µs"])), "wärme,µs\n".as_bytes().to_vec());
}

#[test]
fn header_has_the_four_columns() {
    assert_eq!(
        result_header(),
        ["duration", "write_percentage", "transaction_size", "transaction_count"]
    );
}

#[test]
fn a_result_becomes_four_decimal_fields() {
    assert_eq!(result_record(&result(1234, 10, 100000, 100)), ["1234", "10", "100000", "100"]);
    assert_eq!(result_record(&result(0, 0, 0, 0)), ["0", "0", "0", "0"]);
    assert_eq!(
        result_record(&result(u128::MAX, -3, 7, 9)),
        ["340282366920938463463374607431768211455", "-3", "7", "9"]
    );
}

#[test]
fn no_results_give_the_header_alone() {
    assert_eq!(
        results_csv(&Vec::new()),
        b"duration,write_percentage,transaction_size,transaction_count\n".to_vec()
    );
}

#[test]
fn results_are_rows_in_order() {
    let results = vec![
        result(15, 0, 100000, 100),
        result(1, 10, 100000, 100),
        result(230456, 20, 100000, 100),
    ];
    let text = String::from_utf8(results_csv(&results)).unwrap();
    assert_eq!(
        text,
        "duration,write_percentage,transaction_size,transaction_count\n\
         15,0,100000,100\n\
         1,10,100000,100\n\
         230456,20,100000,100\n"
    );
}

#[test]
fn result_file_has_one_row_per_result() {
    let results: Vec<BenchmarkResult> =
        (0..10).map(|i| result(i as u128 * 3, 10 * i, 100000, 100)).collect();
    let text = String::from_utf8(results_csv(&results)).unwrap();
    let lines: Vec<&str> = text.lines().collect();
    assert_eq!(lines.len(), 11);
    assert_eq!(lines[0], "duration,write_percentage,transaction_size,transaction_count");
    for (i, line) in lines[1..].iter().enumerate() {
        assert_eq!(*line, format!("{},{},100000,100", i * 3, i * 10));
    }
}

#[test]
fn result_file_reads_back_with_csv() {
    let results = vec![result(7, 10, 100, 100000), result(8, 10, 1000, 10000)];
    let document = results_csv(&results);
    let mut reader = csv::Reader::from_reader(document.as_slice());
    let headers: Vec<String> = reader.headers().unwrap().iter().map(String::from).collect();
    assert_eq!(headers, ["duration", "write_percentage", "transaction_size", "transaction_count"]);
    let rows: Vec<Vec<String>> = reader
        .records()
        .map(|record| record.unwrap().iter().map(String::from).collect())
        .collect();
    assert_eq!(rows, [["7", "10", "100", "100000"], ["8", "10", "1000", "10000"]]);
}
