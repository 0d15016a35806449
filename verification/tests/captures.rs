use rure::{
    rure_captures_at, rure_captures_len, rure_captures_new, rure_compile, rure_find,
    rure_find_captures, rure_iter_capture_names_new, rure_iter_capture_names_next, rure_match,
    Regex, RURE_DEFAULT_FLAGS,
};

fn must(pattern: &str) -> Regex {
    match rure_compile(pattern.as_bytes(), RURE_DEFAULT_FLAGS, None) {
        Ok(re) => re,
        Err(e) => panic!("{:?}", e),
    }
}

fn span(start: usize, end: usize) -> Option<rure_match> {
    Some(rure_match { start, end })
}

#[test]
fn captures_new_has_one_group_per_capture_group() {
    assert_eq!(rure_captures_len(&rure_captures_new(&must("abc"))), 1);
    assert_eq!(rure_captures_len(&rure_captures_new(&must("(a)|(b)"))), 3);
    assert_eq!(rure_captures_len(&rure_captures_new(&must(r"(?P<y>\d+)-(\d+)(x(y))"))), 5);
    assert_eq!(rure_captures_len(&rure_captures_new(&must("(?:a)(b)"))), 2);
}

#[test]
fn captures_len_equals_the_number_of_names_enumerated() {
    for pattern in ["abc", "(a)|(b)", r"(?P<year>\d+)-(?P<month>\d+)", "((a)(b(c)))", ""] {
        let re = must(pattern);
        let mut names = rure_iter_capture_names_new(&re);
        let mut count = 0;
        while rure_iter_capture_names_next(&mut names).is_some() {
            count += 1;
        }
        assert_eq!(rure_captures_len(&rure_captures_new(&re)), count, "{}", pattern);
        assert_eq!(count, re.captures_len());
    }
}

#[test]
fn a_buffer_fits_patterns_with_as_many_groups() {
    let two = must("(a)(b)");
    let other_two = must("(?P<x>.)|(y)");
    let one = must("(a)");
    let captures = rure_captures_new(&two);
    assert!(captures.fits(&two));
    assert!(captures.fits(&other_two));
    assert!(!captures.fits(&one));
    assert!(!rure_captures_new(&one).fits(&two));
    assert!(rure_captures_new(&must("")).fits(&must("abc")));
}

#[test]
fn captures_new_is_all_unset() {
    let captures = rure_captures_new(&must("(a)(b)"));
    for i in 0..3 {
        assert_eq!(rure_captures_at(&captures, i), None);
    }
}

#[test]
fn captures_at_beyond_the_groups_is_none() {
    let re = must("(a)(b)");
    let mut captures = rure_captures_new(&re);
    assert!(rure_find_captures(&re, b"ab", 0, &mut captures));
    assert_eq!(rure_captures_at(&captures, 2), span(1, 2));
    assert_eq!(rure_captures_at(&captures, 3), None);
    assert_eq!(rure_captures_at(&captures, usize::MAX), None);
    assert_eq!(rure_captures_at(&captures, usize::MAX / 2 + 1), None);
}

#[test]
fn set_group_writes_both_slots_of_one_group() {
    let mut captures = rure_captures_new(&must("(a)(b)"));
    captures.set_group(1, Some((4, 9)));
    assert_eq!(rure_captures_at(&captures, 0), None);
    assert_eq!(rure_captures_at(&captures, 1), span(4, 9));
    assert_eq!(rure_captures_at(&captures, 2), None);
    captures.set_group(2, Some((0, 0)));
    captures.set_group(1, None);
    assert_eq!(rure_captures_at(&captures, 1), None);
    assert_eq!(rure_captures_at(&captures, 2), span(0, 0));
    assert_eq!(rure_captures_len(&captures), 3);
}

#[test]
fn find_captures_reports_an_absent_alternative() {
    let re = must("(a)|(b)");
    let mut captures = rure_captures_new(&re);
    assert!(rure_find_captures(&re, b"b", 0, &mut captures));
    assert_eq!(rure_captures_at(&captures, 0), span(0, 1));
    assert_eq!(rure_captures_at(&captures, 1), None);
    assert_eq!(rure_captures_at(&captures, 2), span(0, 1));
}

#[test]
fn find_captures_fills_every_group() {
    let re = must(r"(?P<year>\d{4})-(?P<month>\d{2})(-(\d{2}))?");
    let mut captures = rure_captures_new(&re);
    assert!(rure_find_captures(&re, b"on 2024-05-17.", 0, &mut captures));
    assert_eq!(rure_captures_at(&captures, 0), span(3, 13));
    assert_eq!(rure_captures_at(&captures, 1), span(3, 7));
    assert_eq!(rure_captures_at(&captures, 2), span(8, 10));
    assert_eq!(rure_captures_at(&captures, 3), span(10, 13));
    assert_eq!(rure_captures_at(&captures, 4), span(11, 13));
    assert!(rure_find_captures(&re, b"on 2024-05.", 0, &mut captures));
    assert_eq!(rure_captures_at(&captures, 0), span(3, 10));
    assert_eq!(rure_captures_at(&captures, 3), None);
    assert_eq!(rure_captures_at(&captures, 4), None);
}

#[test]
fn find_captures_agrees_with_find_on_the_whole_match() {
    let re = must(r"(\w)(\d)?");
    let mut captures = rure_captures_new(&re);
    let haystack = b"  a1 b c22";
    for start in 0..haystack.len() + 1 {
        let found = rure_find_captures(&re, haystack, start, &mut captures);
        let expected = rure_find(&re, haystack, start);
        assert_eq!(found, expected.is_some());
        if found {
            assert_eq!(rure_captures_at(&captures, 0), expected);
        }
    }
}

#[test]
fn find_captures_without_a_match_leaves_the_buffer() {
    let re = must("(a)(b)");
    let mut captures = rure_captures_new(&re);
    assert!(rure_find_captures(&re, b"xab", 0, &mut captures));
    assert!(!rure_find_captures(&re, b"xab", 2, &mut captures));
    assert_eq!(rure_captures_at(&captures, 0), span(1, 3));
    assert_eq!(rure_captures_at(&captures, 1), span(1, 2));
    assert!(!rure_find_captures(&re, b"xab", 4, &mut captures));
    assert_eq!(rure_captures_at(&captures, 2), span(2, 3));
    assert!(!rure_find_captures(&re, b"zzz", 0, &mut captures));
    assert_eq!(rure_captures_at(&captures, 0), span(1, 3));
}

#[test]
fn a_buffer_outlives_its_pattern_and_is_reused() {
    let re = must("(a+)(b*)");
    let mut captures = rure_captures_new(&re);
    assert!(rure_find_captures(&re, b"aab", 0, &mut captures));
    assert_eq!(rure_captures_at(&captures, 2), span(2, 3));
    assert!(rure_find_captures(&re, b"xa", 0, &mut captures));
    assert_eq!(rure_captures_at(&captures, 0), span(1, 2));
    assert_eq!(rure_captures_at(&captures, 1), span(1, 2));
    assert_eq!(rure_captures_at(&captures, 2), span(2, 2));
    drop(re);
    assert_eq!(rure_captures_len(&captures), 3);
    assert_eq!(rure_captures_at(&captures, 1), span(1, 2));
}

#[test]
fn capture_names_in_group_order() {
    let re = must(r"(?P<year>\d+)");
    let mut names = rure_iter_capture_names_new(&re);
    assert_eq!(rure_iter_capture_names_next(&mut names), Some(String::new()));
    assert_eq!(rure_iter_capture_names_next(&mut names), Some("year".to_string()));
    assert_eq!(rure_iter_capture_names_next(&mut names), None);
    assert_eq!(rure_iter_capture_names_next(&mut names), None);
}

#[test]
fn capture_names_of_unnamed_groups_are_empty() {
    let re = must(r"(a)(?P<b>b)(c)(?P<d>d)");
    let mut names = rure_iter_capture_names_new(&re);
    let mut seen = Vec::new();
    while let Some(name) = rure_iter_capture_names_next(&mut names) {
        seen.push(name);
    }
    assert_eq!(seen, vec!["", "", "b", "", "d"]);
}

#[test]
fn capture_names_of_a_pattern_without_groups() {
    let re = must("abc");
    let mut names = rure_iter_capture_names_new(&re);
    assert_eq!(rure_iter_capture_names_next(&mut names), Some(String::new()));
    assert_eq!(rure_iter_capture_names_next(&mut names), None);
}

#[test]
fn capture_name_cursors_are_independent() {
    let re = must(r"(?P<x>a)");
    let mut first = rure_iter_capture_names_new(&re);
    let mut second = rure_iter_capture_names_new(&re);
    assert_eq!(rure_iter_capture_names_next(&mut first), Some(String::new()));
    assert_eq!(rure_iter_capture_names_next(&mut first), Some("x".to_string()));
    assert_eq!(rure_iter_capture_names_next(&mut second), Some(String::new()));
    drop(re);
    assert_eq!(rure_iter_capture_names_next(&mut second), Some("x".to_string()));
    assert_eq!(rure_iter_capture_names_next(&mut first), None);
}
