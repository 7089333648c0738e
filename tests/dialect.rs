use kv::dialect::{example_sql, JoDialect};
use sqlparser::dialect::Dialect;
use sqlparser::parser::Parser;

#[derive(Debug, Default)]
struct UrlDialect(JoDialect);

impl Dialect for UrlDialect {
    fn is_identifier_start(&self, ch: char) -> bool {
        self.0.is_identifier_start(ch)
    }

    fn is_identifier_part(&self, ch: char) -> bool {
        self.0.is_identifier_part(ch)
    }
}

#[test]
fn dialect_it_works() {
    assert!(Parser::parse_sql(&UrlDialect::default(), &example_sql()).is_ok());
}

#[test]
fn example_sql_names_the_csv_url() {
    let sql = example_sql();
    assert!(sql.starts_with("SELECT location name, total_cases, new_cases, total_deaths, new_deaths FROM https://"));
    assert!(sql.contains("owid-covid-latest.csv where new_deaths >= 500"));
    assert!(sql.ends_with("ORDER BY new_cases DESC LIMIT 6 OFFSET 5"));
}

#[test]
fn identifier_start_accepts_letters_and_underscore() {
    let d = JoDialect;
    for ch in ['a', 'z', 'A', 'Z', '_'] {
        assert!(d.is_identifier_start(ch));
    }
    for ch in ['0', '9', ':', '/', '.', '-', ' ', 'é'] {
        assert!(!d.is_identifier_start(ch));
    }
}

#[test]
fn identifier_part_accepts_url_characters() {
    let d = JoDialect;
    for ch in "azAZ09:/?&=-_.".chars() {
        assert!(d.is_identifier_part(ch));
    }
    for ch in [' ', ',', ';', '(', '\'', '"', '#', 'é'] {
        assert!(!d.is_identifier_part(ch));
    }
}
