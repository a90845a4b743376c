use hwl::bracket::{find_loop_partner, find_skip_partner, LOOP_MARKER, SKIP_MARKER};

fn stream(text: &str) -> Vec<char> {
    text.chars().collect()
}

#[test]
fn markers_are_the_two_punctuation_marks() {
    assert_eq!(SKIP_MARKER, '!');
    assert_eq!(LOOP_MARKER, '?');
}

#[test]
fn flat_pair_matches_both_ways() {
    let code = stream("l!Hlleo?,");
    assert_eq!(find_skip_partner(&code, 1), Some(7));
    assert_eq!(find_loop_partner(&code, 7), Some(1));
}

#[test]
fn nested_pairs_match_by_depth() {
    let code = stream("!a!b!c?d?e?!?");
    assert_eq!(find_skip_partner(&code, 0), Some(10));
    assert_eq!(find_skip_partner(&code, 2), Some(8));
    assert_eq!(find_skip_partner(&code, 4), Some(6));
    assert_eq!(find_skip_partner(&code, 11), Some(12));
    assert_eq!(find_loop_partner(&code, 10), Some(0));
    assert_eq!(find_loop_partner(&code, 8), Some(2));
    assert_eq!(find_loop_partner(&code, 6), Some(4));
    assert_eq!(find_loop_partner(&code, 12), Some(11));
}

#[test]
fn every_marker_of_a_well_formed_stream_has_one_partner() {
    let code = stream("ll!Hll!Hllleo?eo?HH,!?!!??");
    for (i, c) in code.iter().enumerate() {
        if *c == '!' {
            let j = find_skip_partner(&code, i).expect("a `!` of a well-formed stream");
            assert!(j > i);
            assert_eq!(code[j], '?');
            assert_eq!(find_loop_partner(&code, j), Some(i));
        }
        if *c == '?' {
            let j = find_loop_partner(&code, i).expect("a `?` of a well-formed stream");
            assert!(j < i);
            assert_eq!(code[j], '!');
            assert_eq!(find_skip_partner(&code, j), Some(i));
        }
    }
}

#[test]
fn skip_marker_without_partner_is_found_out() {
    assert_eq!(find_skip_partner(&stream("!"), 0), None);
    assert_eq!(find_skip_partner(&stream("!lll"), 0), None);
    assert_eq!(find_skip_partner(&stream("!!?"), 0), None);
    assert_eq!(find_skip_partner(&stream("?!"), 1), None);
}

#[test]
fn loop_marker_without_partner_is_found_out() {
    assert_eq!(find_loop_partner(&stream("?"), 0), None);
    assert_eq!(find_loop_partner(&stream("lll?"), 3), None);
    assert_eq!(find_loop_partner(&stream("!??"), 2), None);
    assert_eq!(find_loop_partner(&stream("?!"), 0), None);
}

#[test]
fn one_unmatched_marker_leaves_the_others_their_partners() {
    let code = stream("!!?");
    assert_eq!(find_skip_partner(&code, 1), Some(2));
    assert_eq!(find_loop_partner(&code, 2), Some(1));
    assert_eq!(find_skip_partner(&code, 0), None);
}

#[test]
fn scan_from_outside_the_stream_finds_nothing() {
    let code = stream("!?");
    assert_eq!(find_skip_partner(&code, 2), None);
    assert_eq!(find_loop_partner(&code, 2), None);
    assert_eq!(find_skip_partner(&[], 0), None);
    assert_eq!(find_loop_partner(&[], 0), None);
}

#[test]
fn scan_counts_from_where_it_starts() {
    let code = stream("a!b?c?");
    assert_eq!(find_skip_partner(&code, 0), Some(5));
    assert_eq!(find_skip_partner(&code, 2), Some(3));
    assert_eq!(find_loop_partner(&code, 4), None);
    let code = stream("!a!b?c");
    assert_eq!(find_loop_partner(&code, 5), Some(0));
    assert_eq!(find_loop_partner(&code, 3), Some(2));
}

#[test]
fn long_unmatched_stream_ends_the_scan() {
    let code: Vec<char> = std::iter::repeat('!').take(100_000).collect();
    assert_eq!(find_skip_partner(&code, 0), None);
    let code: Vec<char> = std::iter::repeat('?').take(100_000).collect();
    assert_eq!(find_loop_partner(&code, 99_999), None);
}

#[test]
fn built_in_preambles_are_well_formed() {
    for preamble in [hwl::config::STANDARD_PREAMBLE, hwl::config::COMPACT_PREAMBLE] {
        let code = stream(preamble);
        let mut depth = 0i64;
        for (i, c) in code.iter().enumerate() {
            if *c == '!' {
                depth += 1;
                let j = find_skip_partner(&code, i).expect("a partner after");
                assert_eq!(find_loop_partner(&code, j), Some(i));
            }
            if *c == '?' {
                depth -= 1;
                assert!(depth >= 0);
                let j = find_loop_partner(&code, i).expect("a partner before");
                assert_eq!(find_skip_partner(&code, j), Some(i));
            }
        }
        assert_eq!(depth, 0);
    }
}
