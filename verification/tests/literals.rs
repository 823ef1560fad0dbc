use seva::parser::lexical::{ident_end, number_end, scan, ByteClass};
use winnow::ascii::{alpha1, alphanumeric0, dec_int, float, multispace0};
use winnow::combinator::{alt, not, terminated};
use winnow::token::one_of;
use winnow::{ModalResult, Parser};

fn reference_number(input: &str) -> Option<usize> {
    let mut rest = input;
    let integer = terminated(dec_int::<_, i64, _>.take(), not(one_of(['.', 'e', 'E'])));
    let read: ModalResult<&str> = alt((integer, float::<_, f64, _>.take())).parse_next(&mut rest);
    read.ok().map(|text| text.len())
}

fn reference_ident(input: &str) -> Option<usize> {
    let mut rest = input;
    let read: ModalResult<&str> = (alpha1, alphanumeric0).take().parse_next(&mut rest);
    read.ok().map(|text| text.len())
}

fn reference_space(input: &str) -> usize {
    let mut rest = input;
    let read: ModalResult<&str> = multispace0.parse_next(&mut rest);
    read.unwrap().len()
}

fn lines() -> Vec<String> {
    let pieces = [
        "", "0", "1", "9", "00", "12", "+", "-", ".", "e", "E", "e+", "e-", "i", "I", "n", "N",
        "inf", "INF", "iNf", "inity", "INITY", "nan", "NaN", "na", "in", "x", "a", "f", "t", "y",
        " ", "\t", "\n", "\r", "_", "(", "é", "٣",
    ];
    let mut all = Vec::new();
    for a in pieces {
        for b in pieces {
            for c in pieces {
                all.push(format!("{}{}{}", a, b, c));
            }
        }
    }
    all
}

#[test]
fn numeric_literals_end_where_the_combinators_end_them() {
    for line in lines() {
        assert_eq!(number_end(line.as_bytes(), 0), reference_number(&line), "{:?}", line);
    }
}

#[test]
fn every_numeric_literal_denotes_a_double() {
    for line in lines() {
        if let Some(end) = number_end(line.as_bytes(), 0) {
            assert!(line[..end].parse::<f64>().is_ok(), "{:?}", line);
        }
    }
}

#[test]
fn numeric_literals_inside_a_line() {
    let line = "x 12.5e3+7";
    assert_eq!(number_end(line.as_bytes(), 2), Some(8));
    assert_eq!(number_end(line.as_bytes(), 3), Some(8));
    assert_eq!(number_end(line.as_bytes(), 8), Some(10));
    assert_eq!(number_end(line.as_bytes(), 9), Some(10));
    assert_eq!(number_end(line.as_bytes(), 10), None);
    assert_eq!(number_end(line.as_bytes(), 0), None);
}

#[test]
fn identifiers_end_where_the_combinators_end_them() {
    for line in lines() {
        assert_eq!(ident_end(line.as_bytes(), 0), reference_ident(&line), "{:?}", line);
    }
    assert_eq!(ident_end("ab1_c".as_bytes(), 0), Some(3));
    assert_eq!(ident_end("1ab".as_bytes(), 0), None);
    assert_eq!(ident_end("1ab".as_bytes(), 1), Some(3));
}

#[test]
fn whitespace_ends_where_the_combinators_end_it() {
    for line in lines() {
        assert_eq!(scan(line.as_bytes(), 0, ByteClass::Space), reference_space(&line), "{:?}", line);
    }
    assert_eq!(scan(" \t\r\n x".as_bytes(), 0, ByteClass::Space), 5);
    assert_eq!(scan("12a".as_bytes(), 0, ByteClass::Digit), 2);
    assert_eq!(scan("a1_".as_bytes(), 0, ByteClass::Alnum), 2);
    assert_eq!(scan("\u{b}\u{c}".as_bytes(), 0, ByteClass::Space), 0);
}
