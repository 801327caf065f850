use algoforge::{CowStr, Data, Json, LibError, Processor, SpellingMapper};

#[test]
fn spelling_mapper_test_invalid_csv_path() {
    let result = SpellingMapper::new("nonexistent.csv".to_string());
    assert!(result.is_err());
}

#[test]
fn debug_csv_content() {
    let csv_content = "target,alternative_spelling\r\ncolour,color\r\nflavour,flavor\n";
    let mapper = SpellingMapper::from_csv(csv_content).unwrap();

    assert_eq!(mapper.get("color"), Some("colour".to_string()));
    assert_eq!(mapper.get("flavor"), Some("flavour".to_string()));
}

#[test]
fn test_basic_mapping() {
    let csv_content = "target,alternative_spelling\r\ncolour,color\r\nflavour,flavor\n";
    let mapper = SpellingMapper::from_csv(csv_content).unwrap();
    let input = vec![CowStr::Borrowed("color"), CowStr::Borrowed("flavor")];

    let result = mapper
        .process(Data::VecCowStr(input))
        .expect("Failed to process input");
    if let Data::VecCowStr(output_vec) = result {
        assert_eq!(
            output_vec,
            vec![
                CowStr::Owned("colour".to_string()),
                CowStr::Owned("flavour".to_string()),
            ]
        );
    } else {
        panic!("Expected Data::VecCowStr");
    }
}

#[test]
fn spelling_mapper_test_cow_variant_preservation() {
    let csv_content = "target,alternative_spelling\r\ncolour,color\r\nflavour,flavor\n";
    let mapper = SpellingMapper::from_csv(csv_content).unwrap();
    let input = vec![
        CowStr::Borrowed("color"),
        CowStr::Borrowed("flavor"),
        CowStr::Borrowed("unchanged"),
        CowStr::Owned("color".to_string()),
        CowStr::Owned("unchanged".to_string()),
    ];

    let result = mapper
        .process(Data::VecCowStr(input))
        .expect("Failed to process input");

    if let Data::VecCowStr(output_vec) = result {
        assert!(matches!(&output_vec[0], CowStr::Owned(s) if s == "colour"));
        assert!(matches!(&output_vec[1], CowStr::Owned(s) if s == "flavour"));
        assert!(matches!(&output_vec[2], CowStr::Borrowed(s) if *s == "unchanged"));
        assert!(matches!(&output_vec[3], CowStr::Owned(s) if s == "colour"));
        assert!(matches!(&output_vec[4], CowStr::Owned(s) if s == "unchanged"));
    } else {
        panic!("Expected Data::VecCowStr");
    }
}

#[test]
fn spelling_mapper_test_empty_input() {
    let csv_content = "target,alternative_spelling\r\ncolour,color\r\n";
    let mapper = SpellingMapper::from_csv(csv_content).unwrap();
    let input: Vec<CowStr> = vec![];

    let result = mapper
        .process(Data::VecCowStr(input))
        .expect("Failed to process input");
    if let Data::VecCowStr(output_vec) = result {
        assert!(output_vec.is_empty());
    } else {
        panic!("Expected Data::VecCowStr");
    }
}

#[test]
fn test_no_mappings_needed() {
    let csv_content = "target,alternative_spelling\r\ncolour,color\r\nflavour,flavor\n";
    let mapper = SpellingMapper::from_csv(csv_content).unwrap();
    let input = vec![CowStr::Borrowed("unchanged1"), CowStr::Borrowed("unchanged2")];

    let result = mapper
        .process(Data::VecCowStr(input))
        .expect("Failed to process input");

    if let Data::VecCowStr(output_vec) = result {
        assert!(matches!(&output_vec[0], CowStr::Borrowed(s) if *s == "unchanged1"));
        assert!(matches!(&output_vec[1], CowStr::Borrowed(s) if *s == "unchanged2"));
    } else {
        panic!("Expected Data::VecCowStr");
    }
}

#[test]
fn spelling_mapper_test_case_sensitivity() {
    let csv_content = "target,alternative_spelling\r\ncolour,color\r\n";
    let mapper = SpellingMapper::from_csv(csv_content).unwrap();
    let input = vec![
        CowStr::Borrowed("color"),
        CowStr::Borrowed("COLOR"),
        CowStr::Borrowed("Color"),
    ];

    let result = mapper
        .process(Data::VecCowStr(input))
        .expect("Failed to process input");

    if let Data::VecCowStr(output_vec) = result {
        assert!(matches!(&output_vec[0], CowStr::Owned(s) if s == "colour"));
        assert!(matches!(&output_vec[1], CowStr::Borrowed(s) if *s == "COLOR"));
        assert!(matches!(&output_vec[2], CowStr::Borrowed(s) if *s == "Color"));
    } else {
        panic!("Expected Data::VecCowStr");
    }
}

#[test]
fn spelling_substitution_scenario_keeps_unmapped_tokens_unallocated() {
    let mapper = SpellingMapper::from_table(vec![vec![
        "aluminium".to_string(),
        "aluminum".to_string(),
    ]])
    .unwrap();
    let is_text = String::from("is");
    let metal_text = String::from("metal");
    let input = vec![
        CowStr::Borrowed("aluminum"),
        CowStr::Borrowed(is_text.as_str()),
        CowStr::Borrowed(metal_text.as_str()),
    ];
    let output = mapper.map_words(input);
    assert_eq!(
        output,
        vec![
            CowStr::Owned("aluminium".to_string()),
            CowStr::Owned("is".to_string()),
            CowStr::Owned("metal".to_string())
        ]
    );
    match (&output[1], &output[2]) {
        (CowStr::Borrowed(a), CowStr::Borrowed(b)) => {
            assert_eq!(a.as_ptr(), is_text.as_ptr());
            assert_eq!(b.as_ptr(), metal_text.as_ptr());
        }
        _ => panic!("unmapped tokens must be handed on as they came"),
    }
}

#[test]
fn later_record_overrides_earlier_one() {
    let mapper = SpellingMapper::from_table(vec![
        vec!["first".to_string(), "x".to_string()],
        vec!["second".to_string(), "x".to_string()],
    ])
    .unwrap();
    assert_eq!(mapper.get("x"), Some("second".to_string()));
    assert_eq!(mapper.get("first"), None);
}

#[test]
fn short_record_is_an_io_error() {
    let result = SpellingMapper::from_table(vec![vec!["lonely".to_string()]]);
    assert!(matches!(result, Err(LibError::IO(_))));
    let result = SpellingMapper::from_csv("target\ncolour\n");
    assert!(matches!(result, Err(LibError::IO(_))));
}

#[test]
fn malformed_csv_is_an_io_error() {
    let result = SpellingMapper::from_csv("target,alternative\ncolour,color,extra\n");
    assert!(matches!(result, Err(LibError::IO(_))));
}

#[test]
fn nonexistent_dictionary_file_gives_io_error() {
    let result = SpellingMapper::new("/definitely/not/here/spelling.csv".to_string());
    assert!(matches!(result, Err(LibError::IO(_))));
}

#[test]
fn spelling_mapper_refuses_structured_value() {
    let mapper = SpellingMapper::from_table(vec![]).unwrap();
    let result = mapper.process(Data::Json(Json::Null));
    assert_eq!(
        result.unwrap_err(),
        LibError::InvalidInput("SpellingMapper".to_string(), "Data::VecCowStr".to_string())
    );
}
