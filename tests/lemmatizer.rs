use algoforge::{CowStr, Data, Json, Lemmatizer, LibError, Processor};

#[test]
fn test_basic_lemmatization() {
    let csv_content =
        "lemma,derivatives\nbe,\"is, was, are, were, been, being\"\nrun,\"runs, ran, running\"";
    let lemmatizer = Lemmatizer::from_csv(csv_content).unwrap();
    let input = vec![
        CowStr::Borrowed("is"),
        CowStr::Borrowed("was"),
        CowStr::Borrowed("be"),
        CowStr::Borrowed("running"),
        CowStr::Borrowed("unknown"),
    ];

    let result = lemmatizer
        .process(Data::VecCowStr(input))
        .expect("Failed to process input");
    if let Data::VecCowStr(output_vec) = result {
        assert_eq!(
            output_vec,
            vec![
                CowStr::Owned("be".to_string()),
                CowStr::Owned("be".to_string()),
                CowStr::Borrowed("be"),
                CowStr::Owned("run".to_string()),
                CowStr::Borrowed("unknown"),
            ]
        );
    } else {
        panic!("Expected Data::VecCowStr");
    }
}

#[test]
fn test_csv_parsing() {
    let csv_content = "lemma,derivatives\nbe,\"is, was, are, were, been, being\"";
    let lemmatizer = Lemmatizer::from_csv(csv_content).unwrap();

    let be_derivatives = lemmatizer.derivatives_of("be").unwrap();
    assert!(be_derivatives.contains(&"is".to_string()));
    assert!(be_derivatives.contains(&"was".to_string()));
    assert!(be_derivatives.contains(&"are".to_string()));
    assert!(be_derivatives.contains(&"were".to_string()));
    assert!(be_derivatives.contains(&"been".to_string()));
    assert!(be_derivatives.contains(&"being".to_string()));
}

#[test]
fn test_multiple_forms() {
    let csv_content = "lemma,derivatives\ngo,\"goes, went, going, gone\"";
    let lemmatizer = Lemmatizer::from_csv(csv_content).unwrap();
    let input = vec![
        CowStr::Borrowed("goes"),
        CowStr::Borrowed("went"),
        CowStr::Borrowed("going"),
        CowStr::Borrowed("gone"),
    ];

    let result = lemmatizer
        .process(Data::VecCowStr(input))
        .expect("Failed to process input");
    if let Data::VecCowStr(output_vec) = result {
        assert!(output_vec.iter().all(|cow| match cow {
            CowStr::Owned(s) => s == "go",
            _ => false,
        }));
    } else {
        panic!("Expected Data::VecCowStr");
    }
}

#[test]
fn lemmatizer_test_cow_variant_preservation() {
    let csv_content = "lemma,derivatives\nbe,\"is, was, are\"";
    let lemmatizer = Lemmatizer::from_csv(csv_content).unwrap();
    let input = vec![
        CowStr::Borrowed("be"),
        CowStr::Owned("unknown".to_string()),
        CowStr::Borrowed("is"),
    ];

    let result = lemmatizer
        .process(Data::VecCowStr(input))
        .expect("Failed to process input");

    if let Data::VecCowStr(output_vec) = result {
        assert!(matches!(&output_vec[0], CowStr::Borrowed(s) if *s == "be"));
        assert!(matches!(&output_vec[1], CowStr::Owned(s) if s == "unknown"));
        assert!(matches!(&output_vec[2], CowStr::Owned(s) if s == "be"));
    } else {
        panic!("Expected Data::VecCowStr");
    }
}

#[test]
fn lemmatizer_test_empty_input() {
    let csv_content = "lemma,derivatives\nbe,\"is, was, are\"";
    let lemmatizer = Lemmatizer::from_csv(csv_content).unwrap();
    let input: Vec<CowStr> = vec![];

    let result = lemmatizer
        .process(Data::VecCowStr(input))
        .expect("Failed to process input");
    if let Data::VecCowStr(output_vec) = result {
        assert!(output_vec.is_empty());
    } else {
        panic!("Expected Data::VecCowStr");
    }
}

#[test]
fn lemmatizer_test_case_sensitivity() {
    let csv_content = "lemma,derivatives\nbe,\"is, was, are\"";
    let lemmatizer = Lemmatizer::from_csv(csv_content).unwrap();
    let input = vec![CowStr::Borrowed("IS"), CowStr::Borrowed("is")];

    let result = lemmatizer
        .process(Data::VecCowStr(input))
        .expect("Failed to process input");
    if let Data::VecCowStr(output_vec) = result {
        assert_eq!(
            output_vec,
            vec![CowStr::Borrowed("IS"), CowStr::Owned("be".to_string())]
        );
    } else {
        panic!("Expected Data::VecCowStr");
    }
}

#[test]
fn test_whitespace_handling() {
    let csv_content = "lemma,derivatives\nbe,\"is,was, are ,were, been , being\"";
    let lemmatizer = Lemmatizer::from_csv(csv_content).unwrap();
    let input = vec![
        CowStr::Borrowed("is"),
        CowStr::Borrowed("was"),
        CowStr::Borrowed("are"),
        CowStr::Borrowed("were"),
        CowStr::Borrowed("been"),
        CowStr::Borrowed("being"),
    ];

    let result = lemmatizer
        .process(Data::VecCowStr(input))
        .expect("Failed to process input");
    if let Data::VecCowStr(output_vec) = result {
        assert!(output_vec.iter().all(|cow| match cow {
            CowStr::Owned(s) => s == "be",
            _ => false,
        }));
    } else {
        panic!("Expected Data::VecCowStr");
    }
}

#[test]
fn lemmatizer_test_invalid_csv_path() {
    let result = Lemmatizer::new("nonexistent.csv".to_string());
    assert!(result.is_err());
}

#[test]
fn test_mixed_input_types() {
    let csv_content = "lemma,derivatives\nbe,\"is, was, are\"";
    let lemmatizer = Lemmatizer::from_csv(csv_content).unwrap();
    let input = vec![CowStr::Borrowed("is"), CowStr::Owned("was".to_string())];

    let result = lemmatizer
        .process(Data::VecCowStr(input))
        .expect("Failed to process input");
    if let Data::VecCowStr(output_vec) = result {
        assert_eq!(
            output_vec,
            vec![
                CowStr::Owned("be".to_string()),
                CowStr::Owned("be".to_string()),
            ]
        );
    } else {
        panic!("Expected Data::VecCowStr");
    }
}

#[test]
fn lemmatizer_scenario_be() {
    let lemmatizer = Lemmatizer::from_table(vec![vec![
        "be".to_string(),
        "is,was,are,were,been,being".to_string(),
    ]])
    .unwrap();
    let result = lemmatizer
        .process(Data::VecCowStr(vec![
            CowStr::Borrowed("is"),
            CowStr::Borrowed("was"),
            CowStr::Borrowed("be"),
            CowStr::Borrowed("unknown"),
        ]))
        .unwrap();
    match result {
        Data::VecCowStr(v) => assert_eq!(
            v,
            vec![
                CowStr::Owned("be".to_string()),
                CowStr::Owned("be".to_string()),
                CowStr::Owned("be".to_string()),
                CowStr::Owned("unknown".to_string())
            ]
        ),
        _ => panic!("Expected Data::VecCowStr"),
    }
}

#[test]
fn lemma_itself_wins_over_derivative_entry() {
    let lemmatizer = Lemmatizer::from_table(vec![
        vec!["be".to_string(), "is".to_string()],
        vec!["is".to_string(), "iss".to_string()],
    ])
    .unwrap();
    let out = lemmatizer.map_words(vec![CowStr::Borrowed("is"), CowStr::Borrowed("iss")]);
    assert!(matches!(&out[0], CowStr::Borrowed(s) if *s == "is"));
    assert!(matches!(&out[1], CowStr::Owned(s) if s == "is"));
    assert_eq!(lemmatizer.derivatives_of("none"), None);
}

#[test]
fn nonexistent_lemma_file_gives_io_error_and_no_stage() {
    let result = Lemmatizer::new("/definitely/not/here/lemmas.csv".to_string());
    assert!(matches!(result, Err(LibError::IO(_))));
}

#[test]
fn lemmatizer_refuses_structured_value_naming_itself() {
    let lemmatizer = Lemmatizer::from_table(vec![]).unwrap();
    let result = lemmatizer.process(Data::Json(Json::Null));
    assert_eq!(
        result.unwrap_err(),
        LibError::InvalidInput("Lemmatizer".to_string(), "Data::VecCowStr".to_string())
    );
}

#[test]
fn single_derivative_without_comma_is_kept_whole() {
    let lemmatizer =
        Lemmatizer::from_table(vec![vec!["be".to_string(), " is ".to_string()]]).unwrap();
    assert_eq!(lemmatizer.derivatives_of("be"), Some(vec![" is ".to_string()]));
    let out = lemmatizer.map_words(vec![CowStr::Borrowed(" is "), CowStr::Borrowed("is")]);
    assert!(matches!(&out[0], CowStr::Owned(s) if s == "be"));
    assert!(matches!(&out[1], CowStr::Borrowed(s) if *s == "is"));
}

#[test]
fn replaced_record_leaves_no_derivatives_behind() {
    let lemmatizer = Lemmatizer::from_table(vec![
        vec!["be".to_string(), "is".to_string()],
        vec!["be".to_string(), "was".to_string()],
    ])
    .unwrap();
    assert_eq!(lemmatizer.derivatives_of("be"), Some(vec!["was".to_string()]));
    let result = lemmatizer
        .process(Data::VecCowStr(vec![CowStr::Borrowed("is"), CowStr::Borrowed("was")]))
        .unwrap();
    match result {
        Data::VecCowStr(v) => {
            assert!(matches!(&v[0], CowStr::Borrowed(s) if *s == "is"));
            assert!(matches!(&v[1], CowStr::Owned(s) if s == "be"));
        }
        _ => panic!("Expected Data::VecCowStr"),
    }
}

#[test]
fn derivative_claimed_twice_goes_to_the_later_record() {
    let lemmatizer = Lemmatizer::from_table(vec![
        vec!["first".to_string(), "x, y".to_string()],
        vec!["second".to_string(), "x".to_string()],
    ])
    .unwrap();
    let out = lemmatizer.map_words(vec![CowStr::Borrowed("x"), CowStr::Borrowed("y")]);
    assert!(matches!(&out[0], CowStr::Owned(s) if s == "second"));
    assert!(matches!(&out[1], CowStr::Owned(s) if s == "first"));
}
