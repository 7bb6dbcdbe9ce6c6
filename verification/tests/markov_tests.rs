use markov_bot::markov::{ErrorType, InputData, Markov, ResultFilter};

fn get_example_data() -> Vec<InputData> {
    let data: Vec<&str> = vec![
        "Lorem ipsum dolor sit amet",
        "Lorem ipsum duplicate start words",
        "Consectetur adipiscing elit",
        "Quisque tempor, erat vel lacinia imperdiet",
        "Justo nisi fringilla dui",
        "Egestas bibendum eros nisi ut lacus",
        "fringilla dui avait annoncé une rupture avec le erat vel: il n'en est rien…",
        "Fusce tincidunt tempor, erat vel lacinia vel ex pharetra pretium lacinia imperdiet",
    ];
    data.iter()
        .map(|s| InputData {
            text: s.to_string(),
            meta: None,
        })
        .collect()
}

#[test]
fn constructor_has_default_state_size() {
    let markov = Markov::new();
    assert!(markov.get_state_size() == 2)
}

#[test]
fn set_state_size_works() {
    let mut markov = Markov::new();
    markov.set_state_size(3).unwrap();
    assert_eq!(markov.get_state_size(), 3)
}

#[test]
fn add_to_corpus_works() {
    let mut markov = Markov::new();
    assert_eq!(markov.corpus_len(), 0);
    markov.add_to_corpus(get_example_data());
    assert_eq!(markov.corpus_len(), 28)
}

#[test]
fn start_words_should_have_the_right_length() {
    let mut markov = Markov::new();
    markov.add_to_corpus(get_example_data());
    assert_eq!(markov.start_word_keys().len(), 7 as usize);
}

#[test]
fn start_words_should_contain_the_right_values() {
    let mut markov = Markov::new();
    markov.add_to_corpus(get_example_data());
    let fragments = markov.start_word_keys();
    assert!(fragments.iter().any(|o| o == "Lorem ipsum"));
    assert!(fragments.iter().any(|o| o == "Consectetur adipiscing"));
    assert!(fragments.iter().any(|o| o == "Quisque tempor,"));
    assert!(fragments.iter().any(|o| o == "Justo nisi"));
    assert!(fragments.iter().any(|o| o == "Egestas bibendum"));
    assert!(fragments.iter().any(|o| o == "fringilla dui"));
    assert!(fragments.iter().any(|o| o == "Fusce tincidunt"));
}

#[test]
fn end_words_should_have_the_right_length() {
    let mut markov = Markov::new();
    markov.add_to_corpus(get_example_data());
    assert_eq!(markov.end_word_keys().len(), 7 as usize);
}

#[test]
fn end_words_should_contain_the_right_values() {
    let mut markov = Markov::new();
    markov.add_to_corpus(get_example_data());
    let fragments = markov.end_word_keys();
    assert!(fragments.iter().any(|o| o == "sit amet"));
    assert!(fragments.iter().any(|o| o == "start words"));
    assert!(fragments.iter().any(|o| o == "adipiscing elit"));
    assert!(fragments.iter().any(|o| o == "fringilla dui"));
    assert!(fragments.iter().any(|o| o == "ut lacus"));
    assert!(fragments.iter().any(|o| o == "est rien…"));
}

#[test]
fn corpus_should_have_the_right_values_for_the_right_keys() {
    let mut markov = Markov::new();
    markov.add_to_corpus(get_example_data());
    let fragments = markov.corpus_next_keys("Lorem ipsum").unwrap();
    assert!(fragments.iter().any(|f| f == "dolor sit"));
    assert!(fragments.iter().any(|f| f == "duplicate start"));
    let fragments = markov.corpus_next_keys("tempor, erat").unwrap();
    assert!(fragments.iter().any(|f| f == "vel lacinia"));
}

#[test]
fn generator_should_return_err_if_the_corpus_is_not_build() {
    let markov = Markov::new();
    let res = markov.generate();
    assert_eq!(res.unwrap_err(), ErrorType::CorpusEmpty);
}

#[test]
fn generator_should_return_a_result_under_the_tries_limit() {
    let mut markov = Markov::new();
    markov.add_to_corpus(get_example_data());
    for _ in 0..10 {
        let sentence = markov.generate();
        assert!(sentence.unwrap().tries < 20);
    }
}

#[test]
fn generator_should_return_error() {
    // Arrange
    let mut markov = Markov::new();
    markov.add_to_corpus(get_example_data());

    // Act: a filter no sentence can meet (no score exceeds u16::MAX)
    let result = markov
        .set_filter(ResultFilter::thresholds(70_000, 0, 0))
        .generate();

    // Assert
    assert_eq!(result.unwrap_err(), ErrorType::TriesExceeded);
}

#[test]
fn result_should_end_with_an_endwords_item() {
    // Arrange
    let mut markov = Markov::new();
    markov.add_to_corpus(get_example_data());
    let end_words = markov.end_word_keys();

    for _ in 0..10 {
        // Act
        let result = markov.generate().unwrap();
        let arr = result.text.split(' ').collect::<Vec<_>>();
        let len = arr.len();
        let end = arr
            .into_iter()
            .skip(len - 2)
            .take(2)
            .collect::<Vec<_>>()
            .join(" ");
        // Assert
        assert!(end_words.iter().any(|f| f == &end));
    }
}

#[test]
fn input_data_from_string() {
    let text = "foo";
    let input = InputData::from(text.to_owned());
    assert_eq!(input.text, "foo");
    assert_eq!(input.meta, None);

    let texts = vec!["foo".to_string()];
    let mut markov = Markov::new();
    markov.add_to_corpus(
        texts
            .iter()
            .map(|t| t.to_owned().into())
            .collect::<Vec<_>>(),
    );
}

#[test]
fn set_state_size_after_data_is_refused() {
    let mut markov = Markov::new();
    markov.add_to_corpus(get_example_data());
    assert_eq!(markov.set_state_size(3).err(), Some(ErrorType::CorpusNotEmpty));
    assert_eq!(markov.get_state_size(), 2);
}

#[test]
fn adding_in_two_parts_builds_the_same_corpus() {
    let data = get_example_data();
    let mut whole = Markov::new();
    whole.add_to_corpus(get_example_data());
    let mut parts = Markov::new();
    let (a, b) = data.split_at(3);
    parts.add_to_corpus(a.iter().map(|d| InputData { text: d.text.clone(), meta: None }).collect());
    parts.add_to_corpus(b.iter().map(|d| InputData { text: d.text.clone(), meta: None }).collect());
    assert_eq!(whole.corpus_len(), parts.corpus_len());
    assert_eq!(whole.start_word_keys(), parts.start_word_keys());
    assert_eq!(whole.end_word_keys(), parts.end_word_keys());
}

#[test]
fn generated_refs_point_to_inputs() {
    let mut markov = Markov::new();
    markov.add_to_corpus(get_example_data());
    for _ in 0..10 {
        let r = markov.generate().unwrap();
        assert!(!r.refs.is_empty());
        for &i in &r.refs {
            assert!(markov.get_input_ref(i).is_some());
        }
    }
}

#[test]
fn export_and_import_keep_the_corpus() {
    let mut markov = Markov::new();
    markov.add_to_corpus(get_example_data());
    let keys = markov.start_word_keys();
    let len = markov.corpus_len();
    let export = markov.export();
    assert!(export.is_well_formed());
    let back = Markov::from_export(export);
    assert_eq!(back.corpus_len(), len);
    assert_eq!(back.start_word_keys(), keys);
}

#[test]
fn one_sentence_corpus_always_gives_it_back() {
    let mut markov = Markov::new();
    markov.add_to_corpus(vec![InputData { text: "foo bar lorem ipsum".to_string(), meta: Some("something".to_string()) }]);
    for _ in 0..5 {
        let r = markov.generate().unwrap();
        assert_eq!(r.text, "foo bar lorem ipsum");
        assert_eq!(r.score, 0);
        assert_eq!(r.refs, vec![0]);
        assert_eq!(r.tries, 1);
    }
}

#[test]
fn drawn_states_follow_the_corpus() {
    let mut markov = Markov::new();
    markov.add_to_corpus(vec![InputData { text: "foo bar lorem ipsum".to_string(), meta: None }]);
    assert!(markov.can_generate());
    assert_eq!(markov.start_state(0), "foo bar");
    assert_eq!(markov.follower_count(&"foo bar".to_string()), 1);
    assert_eq!(markov.next_state(&"foo bar".to_string(), 0), ("lorem ipsum".to_string(), true));
    assert_eq!(markov.follower_count(&"lorem ipsum".to_string()), 0);
}

#[test]
fn loaded_chain_gets_the_default_tries() {
    let mut markov = Markov::new();
    markov.add_to_corpus(vec![InputData { text: "foo bar lorem ipsum".to_string(), meta: None }]);
    let back = Markov::from_export(markov.export());
    assert!(back.can_generate());
    assert_eq!(back.generate().unwrap().text, "foo bar lorem ipsum");
}

#[test]
fn filter_on_length_and_texts() {
    let mut markov = Markov::new();
    markov.add_to_corpus(get_example_data());
    // a filter like a tweet's: no mention, no link, at most 280 characters
    markov.set_filter(ResultFilter {
        min_score: 0,
        min_refs: 0,
        min_words: 0,
        max_chars: Some(280),
        forbidden: vec!["@".to_string(), "http".to_string()],
    });
    for _ in 0..10 {
        let r = markov.generate().unwrap();
        assert!(r.text.chars().count() <= 280);
        assert!(!r.text.contains('@') && !r.text.contains("http"));
    }
    // a text every sentence holds rejects them all
    markov.set_filter(ResultFilter { min_score: 0, min_refs: 0, min_words: 0, max_chars: None, forbidden: vec![" ".to_string()] });
    assert_eq!(markov.generate().unwrap_err(), ErrorType::TriesExceeded);
}
