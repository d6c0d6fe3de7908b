use template_functions::filters::filter_split;
use template_functions::text::{chars_of, same_text, string_of};

#[test]
fn chars_are_read_in_order() {
    assert_eq!(chars_of("aé日"), vec!['a', 'é', '日']);
    assert_eq!(chars_of(""), Vec::<char>::new());
}

#[test]
fn a_string_is_built_from_a_range_of_chars() {
    let chars = vec!['a', 'é', '日', 'b'];
    assert_eq!(string_of(&chars, 0, 4), "aé日b");
    assert_eq!(string_of(&chars, 1, 3), "é日");
    assert_eq!(string_of(&chars, 2, 2), "");
}

#[test]
fn texts_are_the_same_by_their_characters() {
    assert!(same_text("query", "query"));
    assert!(same_text("", ""));
    assert!(!same_text("query", "Query"));
    assert!(!same_text("query", "quer"));
}

#[test]
fn split_pieces_join_back_to_the_value() {
    let values = ["", "a", "a,b,,c", ",", "abcabc", "日本,語"];
    let separators = [",", "bc", "", "a", "日本"];
    for value in values {
        for separator in separators {
            let pieces = filter_split(value, separator);
            assert!(!pieces.is_empty());
            assert_eq!(pieces.join(separator), value);
        }
    }
}
