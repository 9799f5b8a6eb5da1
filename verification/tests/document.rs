use ssh_config::{host_line, parse, property_line, Host, Property};

#[test]
fn parse_empty_document() {
    let result = parse("").expect("Could not parse empty document");
    let expected: Vec<Host> = vec![];
    assert_eq!(expected, result);
}

#[test]
fn parse_filler_only_document() {
    let result = parse(" \t\n# a comment\n\n   # another\n\t\n")
        .expect("Could not parse filler-only document");
    let expected: Vec<Host> = vec![];
    assert_eq!(expected, result);
}

#[test]
fn parse_stray_properties_yield_no_hosts() {
    let result = parse("Asd 123\n\n").expect("Could not parse stray properties");
    let expected: Vec<Host> = vec![];
    assert_eq!(expected, result);
}

#[test]
fn value_trimming_variants_agree() {
    let expected = Property {
        key: "Key".to_string(),
        value: "value".to_string(),
    };

    let (_, with_spaces) =
        property_line("Key   value   ").expect("Could not parse padded property");
    let (_, with_equals) = property_line("Key=value").expect("Could not parse equals property");
    let (_, with_space) = property_line("Key value").expect("Could not parse spaced property");

    assert_eq!(expected, with_spaces);
    assert_eq!(expected, with_equals);
    assert_eq!(expected, with_space);
}

#[test]
fn trailing_comment_stripped_from_value() {
    let (input, property) =
        property_line("HostName foo   # comment").expect("Could not parse commented property");

    let expected = Property {
        key: "HostName".to_string(),
        value: "foo".to_string(),
    };

    assert_eq!("# comment", input);
    assert_eq!(expected, property);
}

#[test]
fn unicode_whitespace_trimmed_from_value() {
    let (_, property) =
        property_line("Key value\u{a0}\u{3000}").expect("Could not parse padded property");

    let expected = Property {
        key: "Key".to_string(),
        value: "value".to_string(),
    };

    assert_eq!(expected, property);
}

#[test]
fn round_trip_ordering() {
    let result = parse("Host a\nX 1\nY 2\nHost b\nZ 3\n").expect("Could not parse two blocks");

    let expected = vec![
        Host {
            name: "a".to_string(),
            properties: vec![
                Property {
                    key: "X".to_string(),
                    value: "1".to_string(),
                },
                Property {
                    key: "Y".to_string(),
                    value: "2".to_string(),
                },
            ],
        },
        Host {
            name: "b".to_string(),
            properties: vec![Property {
                key: "Z".to_string(),
                value: "3".to_string(),
            }],
        },
    ];

    assert_eq!(expected, result);
}

#[test]
fn host_keyword_case_insensitive() {
    let (_, upper) = host_line("HOST dev").expect("Could not parse upper-case host");
    let (_, lower) = host_line("host dev").expect("Could not parse lower-case host");
    let (_, mixed) = host_line("Host=dev").expect("Could not parse mixed-case host");

    assert_eq!("dev", upper);
    assert_eq!("dev", lower);
    assert_eq!("dev", mixed);

    let from_upper = parse("HOST dev").expect("Could not parse upper-case document");
    let from_lower = parse("host dev").expect("Could not parse lower-case document");
    let from_mixed = parse("Host=dev").expect("Could not parse mixed-case document");

    assert_eq!(from_upper, from_lower);
    assert_eq!(from_upper, from_mixed);
    assert_eq!("dev", from_upper[0].name);
}

#[test]
fn duplicate_host_names_kept_separate() {
    let result = parse("Host a\nX 1\nHost a\nX 2\n").expect("Could not parse duplicate hosts");

    assert_eq!(2, result.len());
    assert_eq!("a", result[0].name);
    assert_eq!("a", result[1].name);
    assert_eq!("1", result[0].properties[0].value);
    assert_eq!("2", result[1].properties[0].value);
}

#[test]
fn parse_twice_yields_equal_results() {
    let data = "  # lead\nHost a\nX 1\n\nHost b # tail\nY 2\nstray rest";
    let first = parse(data).expect("Could not parse document once");
    let second = parse(data).expect("Could not parse document twice");
    assert_eq!(first, second);
}

#[test]
fn trailing_filler_produces_no_entries() {
    let result = parse("Host a\nX 1\n\n\n# the end\n   \t\n").expect("Could not parse document");

    let expected = vec![Host {
        name: "a".to_string(),
        properties: vec![Property {
            key: "X".to_string(),
            value: "1".to_string(),
        }],
    }];

    assert_eq!(expected, result);
}
