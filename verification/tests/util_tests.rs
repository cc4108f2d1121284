use pipr::util::{StringExt, VecStringExt};

#[test]
fn test_word_under_cursor() {
    assert_eq!("abc def ghi".word_at_idx(5), Some("def".to_string()));
    assert_eq!("abc def ghi".word_at_idx(2), Some("abc".to_string()));
    assert_eq!("abc def ghi".word_at_idx(0), Some("abc".to_string()));
    assert_eq!("abc def ghi".word_at_idx(10), Some("ghi".to_string()));
    assert_eq!("".word_at_idx(0), None);
    assert_eq!("".word_at_idx(2), None);
    assert_eq!("abc".word_at_idx(0), Some("abc".to_string()));
    assert_eq!("abc".word_at_idx(3), Some("abc".to_string()));
    assert_eq!("abc     def ghi".word_at_idx(3), Some("abc".to_string()));
    assert_eq!("abc     def ghi".word_at_idx(4), None);
    assert_eq!("äää".word_at_idx(2), Some("äää".to_string()));
}

#[test]
fn test_get_full_char_at() {
    assert_eq!("abc".get_full_char_at(0), Some("a".to_string()));
    assert_eq!("abc".get_full_char_at(1), Some("b".to_string()));
    assert_eq!("aääc".get_full_char_at(1), Some("ä".to_string()));
}

#[test]
fn test_split_at_offset() {
    {
        let base_lines: Vec<String> =
            vec!["".into(), "abcd".into(), "abcd".into(), "".into(), "abcd".into()];
        let (left_side, right_side) = base_lines.split_strings_at_offset(2, 2);
        assert_eq!(left_side, vec!["", "abcd", "ab"]);
        assert_eq!(right_side, vec!["cd", "", "abcd"]);
    }
    {
        let base_lines: Vec<String> = vec!["abcd".into(), "abcd".into()];
        let (left_side, right_side) = base_lines.split_strings_at_offset(0, 2);
        assert_eq!(left_side, vec!["ab"]);
        assert_eq!(right_side, vec!["cd", "abcd"]);
    }
}

#[test]
fn test_at_bounds() {
    {
        let base_lines: Vec<String> = vec!["abcd".into(), "abcd".into(), "abcd".into()];
        let (left_side, right_side) = base_lines.split_strings_at_offset(0, 0);
        assert_eq!(left_side, Vec::new() as Vec<String>);
        assert_eq!(right_side, vec!["abcd", "abcd", "abcd"]);
    }
    {
        let base_lines: Vec<String> = vec!["abcd".into(), "abcd".into(), "abcd".into()];
        let (left_side, right_side) = base_lines.split_strings_at_offset(2, 4);
        assert_eq!(left_side, vec!["abcd", "abcd", "abcd"]);
        assert_eq!(right_side, Vec::new() as Vec<String>);
    }
}
