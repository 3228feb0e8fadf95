use mssql_parquet::catalog::{index_digits, normalized_column_name, type_tag_of};

fn norm(s: &str) -> String {
    normalized_column_name(s)
}

fn tag(s: &str) -> String {
    type_tag_of(s)
}

#[test]
fn names_are_trimmed_lowercased_and_collapsed() {
    assert_eq!(norm("OrderId"), "orderid");
    assert_eq!(norm("  First Name  "), "first_name");
    assert_eq!(norm("a\tb\nc"), "a_b_c");
    assert_eq!(norm("Total   Amount Due"), "total_amount_due");
    assert_eq!(norm("x"), "x");
}

#[test]
fn whitespace_only_names_normalize_to_nothing() {
    assert_eq!(norm(""), "");
    assert_eq!(norm("   "), "");
    assert_eq!(norm(" \t\r\n "), "");
}

#[test]
fn type_tags_drop_size_suffixes() {
    assert_eq!(tag("decimal(18,4)"), "decimal");
    assert_eq!(tag("NVARCHAR(50)"), "nvarchar");
    assert_eq!(tag("datetime2(7)"), "datetime2");
    assert_eq!(tag(" int "), "int");
    assert_eq!(tag("Numeric (10, 2)"), "numeric");
    assert_eq!(tag("varbinary(max)"), "varbinary");
}

#[test]
fn synthesized_indexes_are_decimal_digits() {
    let as_string = |v: Vec<char>| v.into_iter().collect::<String>();
    assert_eq!(as_string(index_digits(0)), "0");
    assert_eq!(as_string(index_digits(7)), "7");
    assert_eq!(as_string(index_digits(10)), "10");
    assert_eq!(as_string(index_digits(305)), "305");
}
