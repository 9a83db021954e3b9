use polars_bio::naming::{describe_table_name, fresh_describe_table_name};
use polars_bio::operation::contains_name;
use polars_bio::option::InputFormat;
use polars_bio::scan::get_input_format;
use polars_bio::text::{
    after_last, chars_of, contains_char, ends_with, remove_all, replace_char, string_of,
};

fn chars(s: &str) -> Vec<char> {
    s.chars().collect()
}

#[test]
fn chars_and_back() {
    assert_eq!(chars_of("héllo"), vec!['h', 'é', 'l', 'l', 'o']);
    assert_eq!(chars_of(""), Vec::<char>::new());
    assert_eq!(string_of(&chars("héllo wörld")), "héllo wörld");
}

#[test]
fn string_of_appends_every_character() {
    assert_eq!(string_of(&vec!['a', 'b', 'ç']), "abç");
    assert_eq!(string_of(&Vec::new()), "");
}

#[test]
fn names_are_compared_by_their_text() {
    let list = vec!["abc".to_string(), "".to_string()];
    assert!(contains_name(&list, "abc"));
    assert!(contains_name(&list, ""));
    assert!(!contains_name(&list, "abd"));
    assert!(!contains_name(&list, "ab"));
    assert!(!contains_name(&vec![], "abc"));
}

#[test]
fn extensions_are_matched_in_lowercase() {
    assert_eq!(get_input_format("ABC.Csv"), Ok(InputFormat::Csv));
    assert_eq!(get_input_format("ÄÖ.BED"), Ok(InputFormat::Bed));
}

#[test]
fn ends_with_agrees_with_std() {
    for text in ["", "a", ".csv", "x.csv", "x.csvv", "csv", "x.CSV", "é.csv"] {
        for suffix in ["", ".csv", "csv", "x.csv", "longer than the text"] {
            assert_eq!(ends_with(&chars(text), suffix), text.ends_with(suffix));
        }
    }
}

#[test]
fn contains_char_agrees_with_std() {
    for text in ["", "abc", "a.b", ".", "é."] {
        assert_eq!(contains_char(text, '.'), text.contains('.'));
    }
}

#[test]
fn after_last_agrees_with_split() {
    for text in ["", "a", "a/b", "/a", "a/", "a/b/c.d", "//", "é/ü"] {
        assert_eq!(string_of(&after_last(&chars(text), '/')), text.split('/').last().unwrap());
    }
}

#[test]
fn replace_char_agrees_with_std() {
    for text in ["", "a.b.c", "...", "abc", "é.ü"] {
        assert_eq!(string_of(&replace_char(&chars(text), '.', '_')), text.replace(".", "_"));
    }
}

#[test]
fn remove_all_agrees_with_std() {
    let texts = ["", "a", "aaa", "abab", "aabaa", "x.vcf.vcf", "ababa", "aaaa", ".bed.be.bed", "éaé"];
    let patterns = ["", "a", "aa", "ab", "aba", ".vcf", ".bed", "é", "zzzzzzzzzzzzzzzz"];
    for text in texts {
        for pattern in patterns {
            assert_eq!(
                string_of(&remove_all(&chars(text), &chars(pattern))),
                text.replace(pattern, ""),
                "{:?} without {:?}",
                text,
                pattern
            );
        }
    }
}

#[test]
fn describe_table_names() {
    assert_eq!(describe_table_name(0), "vcf_schema_0");
    assert_eq!(describe_table_name(7), "vcf_schema_7");
    assert_eq!(describe_table_name(10), "vcf_schema_10");
    assert_eq!(describe_table_name(1234567890), "vcf_schema_1234567890");
    assert_eq!(describe_table_name(u32::MAX), "vcf_schema_4294967295");
    for tag in [9, 99, 100, 101, 4096, 65535, 1000000] {
        assert_eq!(describe_table_name(tag), format!("vcf_schema_{}", tag));
    }
}

#[test]
fn fresh_describe_table_name_has_a_number() {
    let name = fresh_describe_table_name();
    let tag: u32 = name.strip_prefix("vcf_schema_").unwrap().parse().unwrap();
    assert_eq!(name, describe_table_name(tag));
}
