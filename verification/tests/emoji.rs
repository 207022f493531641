use latinimers::emojisearch::{
    emoji_init, emoji_search, entry_score, fuzzy_score, has_occurrence, has_suffix, keyword_score,
    mismatch, mismatch_chunks, occurs_at, prefix_score, rank_scores, same_chars,
    should_ignore_exact_query, to_chars, EmojiEntry, EmojiIndex, SCORE_CUTOFF, SCORE_MAX,
};

fn entry(emoji: &str, keywords: &[&str]) -> EmojiEntry {
    EmojiEntry {
        emoji: String::from(emoji),
        keywords: keywords.iter().map(|k| String::from(*k)).collect(),
    }
}

fn apple_table() -> EmojiIndex {
    emoji_init(vec![entry("🍎", &["apple", "red_apple", "fruit"])])
}

fn fruit_table() -> EmojiIndex {
    emoji_init(vec![
        entry("🍎", &["apple", "red_apple", "fruit"]),
        entry("🍏", &["green_apple", "fruit"]),
        entry("🍐", &["pear", "fruit"]),
        entry("🍍", &["pineapple"]),
        entry("🚗", &["car", "red_car"]),
    ])
}

#[test]
fn constants_of_the_search() {
    assert_eq!(SCORE_MAX, 100);
    assert_eq!(SCORE_CUTOFF, 87);
}

#[test]
fn search_for_a_keyword_finds_its_emoji() {
    let table = apple_table();
    assert_eq!(emoji_search(&table, "apple", true), vec![String::from("🍎")]);
    assert_eq!(emoji_search(&table, "red_apple", true), vec![String::from("🍎")]);
    assert_eq!(emoji_search(&table, "fruit", false), vec![String::from("🍎")]);
}

#[test]
fn scores_of_a_prefix_follow_the_lengths() {
    // 100 - round(10 * 5 / 3) = 83
    assert_eq!(keyword_score("app", "apple", false), 83);
    // 100 - round(10 * 9 / 3) = 70
    assert_eq!(keyword_score("red", "red_apple", false), 70);
    // 100 - round(10 * 5 / 4) = 100 - 13: a half rounds up
    assert_eq!(keyword_score("appl", "apple", false), 87);
    assert_eq!(prefix_score(5, 3), 83);
    assert_eq!(prefix_score(9, 3), 70);
    assert_eq!(prefix_score(5, 4), 87);
}

#[test]
fn a_prefix_below_the_cutoff_is_not_found_by_itself() {
    let table = emoji_init(vec![entry("🍎", &["apple"])]);
    assert_eq!(emoji_search(&table, "app", false), Vec::<String>::new());
    let table = emoji_init(vec![entry("🍎", &["red_apple", "fruit"])]);
    assert_eq!(emoji_search(&table, "red", false), Vec::<String>::new());
}

#[test]
fn an_entry_scores_as_its_best_keyword_does() {
    let apple = entry("🍎", &["apple", "red_apple", "fruit"]);
    // "apple" gives 83, "red_apple" holds the query and gives 90.
    assert_eq!(entry_score(&apple, "app", false), 90);
    assert_eq!(emoji_search(&apple_table(), "app", false), vec![String::from("🍎")]);
    // "red_apple" gives 70, the others less.
    assert_eq!(entry_score(&apple, "red", false), 70);
    assert_eq!(emoji_search(&apple_table(), "red", false), Vec::<String>::new());
    assert_eq!(entry_score(&apple, "fruit", true), 100);
    assert_eq!(entry_score(&entry("x", &[]), "fruit", true), 0);
}

#[test]
fn exact_search_scores_words_of_a_keyword() {
    assert_eq!(keyword_score("red", "red", true), 100);
    assert_eq!(keyword_score("red", "red_apple", true), 99);
    assert_eq!(keyword_score("apple", "red_apple", true), 97);
    assert_eq!(keyword_score("heart", "red_heart_suit", true), 96);
    assert_eq!(keyword_score("hear", "red_heart_suit", true), 0);
    assert_eq!(keyword_score("red", "reddish", true), 0);
    assert_eq!(keyword_score("apple", "pineapple", true), 0);
}

#[test]
fn exact_search_prefers_the_first_word() {
    // The query is the first and the last word: the first counts.
    assert_eq!(keyword_score("na", "na_na", true), 99);
    assert_eq!(keyword_score("b", "a_b_b", true), 97);
}

#[test]
fn common_words_are_not_looked_for_between_separators() {
    for word in ["with", "in", "no", "and", "of", "the", "me", "on", "a"] {
        assert!(should_ignore_exact_query(word));
    }
    for word in ["", "wit", "withe", "red", "A", "The", "an"] {
        assert!(!should_ignore_exact_query(word));
    }
    assert_eq!(keyword_score("with", "face_with_tears", true), 0);
    assert_eq!(keyword_score("tears", "face_tears_joy", true), 96);
    // At the beginning and at the end they are still found.
    assert_eq!(keyword_score("no", "no_entry", true), 99);
    assert_eq!(keyword_score("me", "call_me", true), 97);
}

#[test]
fn loose_search_scores_an_occurrence() {
    assert_eq!(keyword_score("apple", "pineapple", false), 90);
    assert_eq!(keyword_score("ine", "pineapple", false), 90);
}

#[test]
fn loose_search_scores_by_edit_distance() {
    // distance 1, lengths 3 + 3: 5/6 of 100 is 83.33, no common prefix.
    assert_eq!(keyword_score("kat", "cat", false), 83);
    // distance 1, 83.33, and two bytes in common: 11 more, 94.33.
    assert_eq!(keyword_score("bat", "bar", false), 94);
    // distance 3, lengths 3 + 3: 50.
    assert_eq!(keyword_score("abc", "xyz", false), 50);
    // distance 4, lengths 3 + 5: 50.
    assert_eq!(keyword_score("red", "fruit", false), 50);
    // distance 1, lengths 4 + 5: 88.89, two bytes in common: 99.89, capped at 100.
    assert_eq!(keyword_score("aple", "apple", false), 100);
    // distance 2 ("kitten" to "sitten" to "sittin"), 12 - 2 of 12: 83.33.
    assert_eq!(keyword_score("kitten", "sittin", false), 83);
}

#[test]
fn fuzzy_score_rounds_halves_up_and_is_capped() {
    // 100 * 1/2 + 5.5 = 55.5
    assert_eq!(fuzzy_score(1, 1, 1, 1), 56);
    // 100 * 3/4 = 75
    assert_eq!(fuzzy_score(1, 2, 2, 0), 75);
    assert_eq!(fuzzy_score(0, 2, 2, 0), 100);
    assert_eq!(fuzzy_score(4, 2, 2, 0), 0);
    assert_eq!(fuzzy_score(4, 2, 2, 19), 100);
    assert_eq!(fuzzy_score(4, 2, 2, usize::MAX), 100);
    assert_eq!(fuzzy_score(4, 2, 2, 18), 99);
}

#[test]
fn an_empty_query_finds_only_an_empty_keyword() {
    assert_eq!(keyword_score("", "", false), 100);
    assert_eq!(keyword_score("", "", true), 100);
    assert_eq!(keyword_score("", "apple", false), 100 - i32::MAX);
    assert_eq!(prefix_score(5, 0), 100 - i32::MAX);
    let table = fruit_table();
    assert_eq!(emoji_search(&table, "", false), Vec::<String>::new());
    assert_eq!(entry_score(table.entry(0), "", false), 0);
}

#[test]
fn characters_count_not_bytes() {
    // Two characters against one: 100 - round(10 * 2 / 1) = 80.
    assert_eq!(keyword_score("é", "éa", false), 80);
    // The common prefix is counted in bytes: "é" and "è" share their first byte.
    // distance 1, lengths 1 + 1: 50, and 5.5 for the byte: 55.5.
    assert_eq!(keyword_score("é", "è", false), 56);
    assert_eq!(mismatch("é".as_bytes(), "è".as_bytes()), 1);
    assert_eq!(to_chars("aé🍎"), vec!['a', 'é', '🍎']);
}

#[test]
fn results_come_best_first_and_in_the_order_of_the_table() {
    let table = fruit_table();
    // "fruit": three entries with 100, in the order of the table.
    assert_eq!(
        emoji_search(&table, "fruit", true),
        vec![String::from("🍎"), String::from("🍏"), String::from("🍐")]
    );
    // "apple": 100 for the first entry, 97 for the second, nothing for "pineapple".
    assert_eq!(
        emoji_search(&table, "apple", true),
        vec![String::from("🍎"), String::from("🍏")]
    );
    // Loosely: 100, then 90 for the two keywords that hold it.
    assert_eq!(
        emoji_search(&table, "apple", false),
        vec![String::from("🍎"), String::from("🍏"), String::from("🍍")]
    );
    // "pear" is 4 edits from "apple": 5/9 of 100 is 55.56.  "red_car" is 7
    // edits away: 5/12 of 100 is 41.67, and "car" with 5 edits gives 37.5.
    assert_eq!(table.scores("apple", false), vec![100, 90, 56, 90, 42]);
    assert_eq!(table.scores("apple", true), vec![100, 97, 0, 0, 0]);
}

#[test]
fn every_result_reaches_the_cutoff_and_scores_do_not_rise() {
    let table = fruit_table();
    for query in ["apple", "fruit", "red", "pear", "car", "a", "p", "pea", "appl", "xyz"] {
        for exact in [false, true] {
            let scores = table.scores(query, exact);
            let ranked = rank_scores(&scores);
            let results = emoji_search(&table, query, exact);
            assert_eq!(results.len(), ranked.len());
            for (j, &at) in ranked.iter().enumerate() {
                assert!(scores[at] >= SCORE_CUTOFF);
                assert_eq!(results[j], table.entry(at).emoji);
                if j > 0 {
                    let before = ranked[j - 1];
                    assert!(
                        scores[before] > scores[at] || (scores[before] == scores[at] && before < at)
                    );
                }
            }
            for (at, &score) in scores.iter().enumerate() {
                assert_eq!(score >= SCORE_CUTOFF, ranked.contains(&at));
            }
        }
    }
}

#[test]
fn searching_twice_gives_the_same_and_leaves_the_table() {
    let table = fruit_table();
    let first = emoji_search(&table, "apple", false);
    let second = emoji_search(&table, "apple", false);
    assert_eq!(first, second);
    assert_eq!(table.len(), 5);
    assert_eq!(table.entry(0).emoji, "🍎");
    assert_eq!(table.entry(0).keywords, vec!["apple", "red_apple", "fruit"]);
    assert_eq!(table.entry(4).keywords, vec!["car", "red_car"]);
}

#[test]
fn ranking_takes_scores_from_the_cutoff_up() {
    assert_eq!(rank_scores(&vec![86, 87, 100, 99, 87, 0, 100]), vec![2, 6, 3, 1, 4]);
    assert_eq!(rank_scores(&vec![]), Vec::<usize>::new());
    assert_eq!(rank_scores(&vec![0, 50, 86]), Vec::<usize>::new());
}

#[test]
fn mismatch_is_the_length_of_the_common_prefix() {
    assert_eq!(mismatch(b"", b""), 0);
    assert_eq!(mismatch(b"abc", b""), 0);
    assert_eq!(mismatch(b"abc", b"abd"), 2);
    assert_eq!(mismatch(b"abc", b"abcd"), 3);
    assert_eq!(mismatch(b"abc", b"abc"), 3);
    assert_eq!(mismatch(b"xbc", b"abc"), 0);
    let long_a = vec![7u8; 300];
    let mut long_b = vec![7u8; 300];
    assert_eq!(mismatch(&long_a, &long_b), 300);
    long_b[257] = 8;
    assert_eq!(mismatch(&long_a, &long_b), 257);
    long_b[128] = 8;
    assert_eq!(mismatch(&long_a, &long_b), 128);
    long_b[3] = 8;
    assert_eq!(mismatch(&long_a, &long_b), 3);
}

#[test]
fn mismatch_chunks_does_not_depend_on_the_chunk() {
    let a = b"the quick brown fox jumps over the lazy dog";
    let b = b"the quick brown fox jumped over the lazy dog";
    assert_eq!(mismatch_chunks::<1>(a, b), 24);
    assert_eq!(mismatch_chunks::<4>(a, b), 24);
    assert_eq!(mismatch_chunks::<8>(a, b), 24);
    assert_eq!(mismatch_chunks::<24>(a, b), 24);
    assert_eq!(mismatch_chunks::<128>(a, b), 24);
}

#[test]
fn text_predicates() {
    let text = to_chars("red_apple");
    assert!(occurs_at(&text, 0, &to_chars("red")));
    assert!(occurs_at(&text, 4, &to_chars("apple")));
    assert!(!occurs_at(&text, 5, &to_chars("apple")));
    assert!(occurs_at(&text, 9, &to_chars("")));
    assert!(!occurs_at(&text, 10, &to_chars("")));
    assert!(has_suffix(&text, &to_chars("apple")));
    assert!(has_suffix(&text, &to_chars("")));
    assert!(!has_suffix(&text, &to_chars("red")));
    assert!(!has_suffix(&to_chars("le"), &to_chars("apple")));
    assert!(has_occurrence(&text, &to_chars("d_a")));
    assert!(has_occurrence(&text, &to_chars("")));
    assert!(!has_occurrence(&text, &to_chars("apples")));
    assert!(same_chars(&text, &to_chars("red_apple")));
    assert!(!same_chars(&text, &to_chars("red_applf")));
    assert!(!same_chars(&text, &to_chars("red_appl")));
}

fn float_score(query: &str, keyword: &str, exact: bool) -> i32 {
    let len_query = query.chars().count();
    if keyword == query {
        100
    } else if !exact {
        let len_keyword = keyword.chars().count();
        if keyword.starts_with(query) {
            let (len_long, len_short) = if len_keyword > len_query {
                (len_keyword, len_query)
            } else {
                (len_query, len_keyword)
            };
            100 - ((len_long as f32 / len_short as f32) * 10.0).round() as i32
        } else if keyword.contains(query) {
            90
        } else {
            let distance = levenshtein::levenshtein(query, keyword);
            let lensum = len_query + len_keyword;
            let ratio = (lensum - distance) as f32 / lensum as f32;
            let bonus = query
                .as_bytes()
                .iter()
                .zip(keyword.as_bytes().iter())
                .take_while(|(x, y)| x == y)
                .count() as f32;
            std::cmp::min(100, (ratio * 100.0 + bonus * 5.5).round() as i32)
        }
    } else if keyword.starts_with(format!("{}_", query).as_str()) {
        99
    } else if keyword.ends_with(format!("_{}", query).as_str()) {
        97
    } else if !["with", "in", "no", "and", "of", "the", "me", "on", "a"].contains(&query)
        && keyword.contains(format!("_{}_", query).as_str())
    {
        96
    } else {
        0
    }
}

#[test]
fn scores_agree_with_the_scores_in_floats() {
    let words = [
        "", "a", "ab", "abc", "apple", "red_apple", "green_apple", "pineapple", "app", "apl",
        "aple", "fruit", "the", "of", "face_with_tears_of_joy", "tears", "joy", "with", "face",
        "smiling_face_with_heart_eyes", "heart", "eyes", "é", "éa", "è", "🍎", "🍎_apple",
        "thumbs_up", "thumbsup", "up", "no", "no_entry", "entry", "kitten", "sittin", "sitting",
        "a_b", "b_a", "a_a_a", "_", "__", "_a", "a_", "car", "red_car", "cart", "scar",
    ];
    let mut differing = Vec::new();
    for query in words.iter() {
        for keyword in words.iter() {
            for exact in [false, true] {
                let ours = keyword_score(query, keyword, exact);
                let theirs = float_score(query, keyword, exact);
                if ours != theirs {
                    differing.push((*query, *keyword, exact, ours, theirs));
                }
            }
        }
    }
    assert_eq!(differing, vec![]);
}
