use rure::{
    rure_captures_at, rure_captures_new, rure_compile, rure_find_captures, rure_iter_new,
    rure_iter_next, rure_iter_next_captures, rure_match, Regex, Step, RURE_DEFAULT_FLAGS,
};

fn must(pattern: &str) -> Regex {
    match rure_compile(pattern.as_bytes(), RURE_DEFAULT_FLAGS, None) {
        Ok(re) => re,
        Err(e) => panic!("{:?}", e),
    }
}

fn span(start: usize, end: usize) -> Option<rure_match> {
    Some(rure_match { start, end })
}

fn all_matches(pattern: &str, haystack: &[u8]) -> Vec<(usize, usize)> {
    let re = must(pattern);
    let mut it = rure_iter_new(&re);
    let mut out = Vec::new();
    while let Some(m) = rure_iter_next(&mut it, haystack) {
        out.push((m.start, m.end));
        assert!(out.len() <= haystack.len() + 1);
    }
    out
}

#[test]
fn iter_new_starts_at_zero() {
    let re = must("a");
    let it = rure_iter_new(&re);
    assert_eq!(it.last_end(), 0);
    assert_eq!(it.last_match(), None);
}

#[test]
fn advance_on_nothing_is_done() {
    let re = must("a");
    let mut it = rure_iter_new(&re);
    assert_eq!(it.advance(None), Step::Done);
    assert_eq!(it.last_end(), 0);
    assert_eq!(it.last_match(), None);
}

#[test]
fn advance_on_a_match_moves_to_its_end() {
    let re = must("a");
    let mut it = rure_iter_new(&re);
    assert_eq!(it.advance(Some((1, 3))), Step::Emit(rure_match { start: 1, end: 3 }));
    assert_eq!(it.last_end(), 3);
    assert_eq!(it.last_match(), Some(3));
}

#[test]
fn advance_on_an_empty_match_moves_one_past_it() {
    let re = must("a");
    let mut it = rure_iter_new(&re);
    assert_eq!(it.advance(Some((5, 5))), Step::Emit(rure_match { start: 5, end: 5 }));
    assert_eq!(it.last_end(), 6);
    assert_eq!(it.last_match(), Some(5));
}

#[test]
fn advance_on_an_empty_match_at_offset_zero_first() {
    let re = must("a");
    let mut it = rure_iter_new(&re);
    assert_eq!(it.advance(Some((0, 0))), Step::Emit(rure_match { start: 0, end: 0 }));
    assert_eq!(it.last_end(), 1);
    assert_eq!(it.last_match(), Some(0));
}

#[test]
fn advance_passes_over_an_empty_match_after_a_match() {
    let re = must("a");
    let mut it = rure_iter_new(&re);
    assert_eq!(it.advance(Some((1, 3))), Step::Emit(rure_match { start: 1, end: 3 }));
    assert_eq!(it.advance(Some((3, 3))), Step::Skip);
    assert_eq!(it.last_end(), 4);
    assert_eq!(it.last_match(), Some(3));
    assert_eq!(it.advance(Some((4, 4))), Step::Emit(rure_match { start: 4, end: 4 }));
    assert_eq!(it.last_end(), 5);
    assert_eq!(it.last_match(), Some(4));
}

#[test]
fn advance_passes_over_a_repeated_empty_match() {
    let re = must("a");
    let mut it = rure_iter_new(&re);
    assert_eq!(it.advance(Some((2, 2))), Step::Emit(rure_match { start: 2, end: 2 }));
    assert_eq!(it.advance(Some((2, 2))), Step::Skip);
    assert_eq!(it.last_end(), 3);
    assert_eq!(it.advance(None), Step::Done);
    assert_eq!(it.last_end(), 3);
    assert_eq!(it.last_match(), Some(2));
}

#[test]
fn star_on_two_letters_emits_one_match() {
    let re = must("a*");
    let mut it = rure_iter_new(&re);
    assert_eq!(rure_iter_next(&mut it, b"aa"), span(0, 2));
    assert_eq!(rure_iter_next(&mut it, b"aa"), None);
    assert_eq!(rure_iter_next(&mut it, b"aa"), None);
    assert_eq!(it.last_end(), 3);
    assert_eq!(it.last_match(), Some(2));
}

#[test]
fn empty_matches_are_emitted_where_no_match_ended() {
    assert_eq!(all_matches("a*", b"baab"), vec![(0, 0), (1, 3), (4, 4)]);
    assert_eq!(all_matches("a*", b""), vec![(0, 0)]);
    assert_eq!(all_matches("", b"abc"), vec![(0, 0), (1, 1), (2, 2), (3, 3)]);
    assert_eq!(all_matches(r"\b", b"  ab"), vec![(2, 2), (4, 4)]);
}

#[test]
fn matches_do_not_overlap() {
    assert_eq!(all_matches("aa", b"aaaaa"), vec![(0, 2), (2, 4)]);
    assert_eq!(all_matches(r"\d+", b"1 22 333"), vec![(0, 1), (2, 4), (5, 8)]);
    assert_eq!(all_matches("x", b"abc"), vec![]);
}

#[test]
fn iteration_agrees_with_the_engine() {
    let cases: Vec<(&str, &[u8])> = vec![
        ("a*", b"baab"),
        ("a*?", b"aaa"),
        (r"\w*", b"ab cd  ef"),
        (r"\b", b"ab cd"),
        ("(?m)^", b"a\nb\n"),
        ("(?m)$", b"a\nb\n"),
        ("", b"\xff\xfe"),
        ("(?:a|b*)", b"aba"),
        (r"\s*", b" a  b "),
    ];
    for (pattern, haystack) in cases {
        let reference: Vec<(usize, usize)> = regex::bytes::Regex::new(pattern)
            .unwrap()
            .find_iter(haystack)
            .map(|m| (m.start(), m.end()))
            .collect();
        assert_eq!(all_matches(pattern, haystack), reference, "{}", pattern);
    }
}

#[test]
fn iteration_never_revisits_and_never_moves_back() {
    let cases: Vec<(&str, &[u8])> =
        vec![("a*", b"baaab a"), (r"\b", b"one two"), ("", b"abc"), (r"\d*", b"1a22b"), ("b", b"bbb")];
    for (pattern, haystack) in cases {
        let re = must(pattern);
        let mut it = rure_iter_new(&re);
        let mut seen: Vec<rure_match> = Vec::new();
        let mut last_end = it.last_end();
        for _ in 0..haystack.len() + 3 {
            let r = rure_iter_next(&mut it, haystack);
            assert!(it.last_end() >= last_end);
            last_end = it.last_end();
            if let Some(m) = r {
                assert!(m.start <= m.end && m.end <= haystack.len());
                assert!(!seen.contains(&m));
                if let Some(p) = seen.last() {
                    assert!(p.end < m.end && p.start < m.start && p.end <= m.start);
                }
                assert_eq!(it.last_match(), Some(m.end));
                seen.push(m);
            }
        }
        assert_eq!(rure_iter_next(&mut it, haystack), None);
    }
}

#[test]
fn an_exhausted_cursor_stays_exhausted() {
    let re = must("a");
    let mut it = rure_iter_new(&re);
    assert_eq!(rure_iter_next(&mut it, b"xax"), span(1, 2));
    assert_eq!(rure_iter_next(&mut it, b"xax"), None);
    let (end, last) = (it.last_end(), it.last_match());
    assert_eq!(rure_iter_next(&mut it, b"xax"), None);
    assert_eq!((it.last_end(), it.last_match()), (end, last));
    assert_eq!((end, last), (2, Some(2)));
}

#[test]
fn a_cursor_beyond_the_haystack_is_exhausted() {
    let re = must("a");
    let mut it = rure_iter_new(&re);
    assert_eq!(rure_iter_next(&mut it, b"bbbbba"), span(5, 6));
    assert_eq!(rure_iter_next(&mut it, b"aaa"), None);
    assert_eq!(it.last_end(), 6);
}

#[test]
fn two_cursors_over_one_pattern_are_independent() {
    let re = must(r"\d");
    let mut first = rure_iter_new(&re);
    let mut second = rure_iter_new(&re);
    assert_eq!(rure_iter_next(&mut first, b"1 2"), span(0, 1));
    assert_eq!(rure_iter_next(&mut first, b"1 2"), span(2, 3));
    assert_eq!(rure_iter_next(&mut second, b"1 2"), span(0, 1));
    assert_eq!(rure_iter_next(&mut first, b"1 2"), None);
    assert_eq!(rure_iter_next(&mut second, b"1 2"), span(2, 3));
}

#[test]
fn next_captures_fills_the_groups_of_each_match() {
    let re = must("(a)(b)?");
    let mut it = rure_iter_new(&re);
    let mut captures = rure_captures_new(&re);
    assert!(rure_iter_next_captures(&mut it, b"ab a", &mut captures));
    assert_eq!(rure_captures_at(&captures, 0), span(0, 2));
    assert_eq!(rure_captures_at(&captures, 1), span(0, 1));
    assert_eq!(rure_captures_at(&captures, 2), span(1, 2));
    assert_eq!(it.last_end(), 2);
    assert!(rure_iter_next_captures(&mut it, b"ab a", &mut captures));
    assert_eq!(rure_captures_at(&captures, 0), span(3, 4));
    assert_eq!(rure_captures_at(&captures, 1), span(3, 4));
    assert_eq!(rure_captures_at(&captures, 2), None);
    assert!(!rure_iter_next_captures(&mut it, b"ab a", &mut captures));
    assert_eq!(rure_captures_at(&captures, 0), span(3, 4));
    assert_eq!(rure_captures_at(&captures, 1), span(3, 4));
    assert_eq!(it.last_match(), Some(4));
}

#[test]
fn next_captures_passes_over_an_empty_match_after_a_match() {
    let re = must("(a*)");
    let mut it = rure_iter_new(&re);
    let mut captures = rure_captures_new(&re);
    assert!(rure_iter_next_captures(&mut it, b"aa", &mut captures));
    assert_eq!(rure_captures_at(&captures, 0), span(0, 2));
    assert_eq!(rure_captures_at(&captures, 1), span(0, 2));
    assert!(!rure_iter_next_captures(&mut it, b"aa", &mut captures));
    assert_eq!(rure_captures_at(&captures, 1), span(0, 2));
    assert_eq!(it.last_end(), 3);
}

#[test]
fn next_captures_moves_as_next_does() {
    let cases: Vec<(&str, &[u8])> =
        vec![("(a*)", b"baab"), (r"(\w)(\d)?", b"a1 b c22"), (r"(\b)", b"ab cd"), ("()", b"abc")];
    for (pattern, haystack) in cases {
        let re = must(pattern);
        let mut plain = rure_iter_new(&re);
        let mut with = rure_iter_new(&re);
        let mut captures = rure_captures_new(&re);
        let mut probe = rure_captures_new(&re);
        for _ in 0..haystack.len() + 2 {
            let at = with.last_end();
            let expected = rure_iter_next(&mut plain, haystack);
            let found = rure_iter_next_captures(&mut with, haystack, &mut captures);
            assert_eq!(found, expected.is_some());
            assert_eq!(with.last_end(), plain.last_end());
            assert_eq!(with.last_match(), plain.last_match());
            if let Some(m) = expected {
                assert_eq!(rure_captures_at(&captures, 0), Some(m));
                assert!(at <= m.start);
                assert!(rure_find_captures(&re, haystack, m.start, &mut probe));
                assert_eq!(rure_captures_at(&probe, 0), Some(m));
                assert_eq!(rure_captures_at(&probe, 1), rure_captures_at(&captures, 1));
            }
        }
    }
}
