use exploration::collection_questions::{median_and_mode, pig_latin_with, question_2};

#[test]
fn pig_latin_leaves_punctuation() {
    assert_eq!(question_2("!!!"), "!!!");
    assert_eq!(question_2(""), "");
}

#[test]
fn pig_latin_consonant_word() {
    assert_eq!(question_2("first"), "irstfay");
}

#[test]
fn pig_latin_vowel_word_drops_the_vowel() {
    assert_eq!(question_2("apple"), "pplehay");
}

#[test]
fn pig_latin_sentence() {
    assert_eq!(question_2("hello, world"), "ellohay, orldway");
    assert_eq!(question_2("  ab12cd"), "  bhay12dcay");
}

#[test]
fn pig_latin_upper_case_vowel_is_a_consonant() {
    assert_eq!(question_2("Apple"), "ppleAay");
}

#[test]
fn pig_latin_non_ascii_letters() {
    assert_eq!(question_2("éa ✅"), "aéay ✅");
    assert_eq!(question_2("x"), "xay");
    assert_eq!(question_2("i"), "hay");
}

#[test]
fn median_and_mode_even_length() {
    let (twice_median, mode) = median_and_mode(&vec![1, 2, 3, 4, 5, 6, 6, 6, 7, 8]);
    assert_eq!(twice_median, 11);
    assert_eq!(mode, 6);
}

#[test]
fn median_and_mode_odd_length_unsorted() {
    let (twice_median, mode) = median_and_mode(&vec![3, 1, 2]);
    assert_eq!(twice_median, 4);
    assert_eq!(mode, 3);
}

#[test]
fn mode_tie_goes_to_largest() {
    let (twice_median, mode) = median_and_mode(&vec![2, 1, 2, 1]);
    assert_eq!(twice_median, 3);
    assert_eq!(mode, 2);
    assert_eq!(median_and_mode(&vec![5, 9, 9, 1, 1, 1]), (6, 1));
}

#[test]
fn median_single_and_extremes() {
    assert_eq!(median_and_mode(&vec![-7]), (-14, -7));
    assert_eq!(
        median_and_mode(&vec![i32::MAX, i32::MAX]),
        (2 * i32::MAX as i64, i32::MAX)
    );
}

#[test]
fn pig_latin_with_given_classes() {
    assert_eq!(pig_latin_with("xy!", &vec![true, true, false]), "yxay!");
    assert_eq!(pig_latin_with("ab", &vec![true, false]), "hayb");
    assert_eq!(pig_latin_with("ab", &vec![false, false]), "ab");
    assert_eq!(pig_latin_with("12", &vec![true, true]), "21ay");
    assert_eq!(pig_latin_with("", &vec![]), "");
}
