use vstd::prelude::*;

verus! {

/// A SQL dialect whose identifiers may be plain URLs, so that a table in a
/// `FROM` clause can name the location of the data directly.
#[derive(Debug, Default)]
pub struct JoDialect;

/// An identifier starts with an ASCII letter or an underscore.
pub open spec fn spec_identifier_start(ch: char) -> bool {
    ('a' <= ch && ch <= 'z') || ('A' <= ch && ch <= 'Z') || ch == '_'
}

/// An identifier continues with an ASCII letter, an ASCII digit, or one of
/// the characters that occur in a URL: `: / ? & = - _ .`.
pub open spec fn spec_identifier_part(ch: char) -> bool {
    ('a' <= ch && ch <= 'z') || ('A' <= ch && ch <= 'Z') || ('0' <= ch && ch <= '9')
        || ch == ':' || ch == '/' || ch == '?' || ch == '&' || ch == '='
        || ch == '-' || ch == '_' || ch == '.'
}

impl JoDialect {
    pub fn is_identifier_start(&self, ch: char) -> (r: bool)
        ensures
            r == spec_identifier_start(ch),
    {
        ('a' <= ch && ch <= 'z') || ('A' <= ch && ch <= 'Z') || ch == '_'
    }

    pub fn is_identifier_part(&self, ch: char) -> (r: bool)
        ensures
            r == spec_identifier_part(ch),
    {
        ('a' <= ch && ch <= 'z') || ('A' <= ch && ch <= 'Z') || ('0' <= ch && ch <= '9')
            || ch == ':' || ch == '/' || ch == '?' || ch == '&' || ch == '='
            || ch == '-' || ch == '_' || ch == '.'
    }
}

/// The location of the sample data set: the latest COVID-19 figures per country.
pub open spec fn covid_data_url() -> Seq<char> {
    "https://raw.githubusercontent.com/owid/covid-19-data/master/public/data/latest/owid-covid-latest.csv"@
}

/// The sample query, with the data set's location as its table.
pub open spec fn spec_example_sql() -> Seq<char> {
    "SELECT location name, total_cases, new_cases, total_deaths, new_deaths FROM "@
        + covid_data_url()
        + " where new_deaths >= 500 ORDER BY new_cases DESC LIMIT 6 OFFSET 5"@
}

/// A sample query over a CSV file that is named by its URL.
pub fn example_sql() -> (r: String)
    ensures
        r@ == spec_example_sql(),
{
    let url = "https://raw.githubusercontent.com/owid/covid-19-data/master/public/data/latest/owid-covid-latest.csv";
    let mut sql = "SELECT location name, total_cases, new_cases, total_deaths, new_deaths FROM ".to_owned();
    sql.append(url);
    sql.append(" where new_deaths >= 500 ORDER BY new_cases DESC LIMIT 6 OFFSET 5");
    sql
}

} // verus!
