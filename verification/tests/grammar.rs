use ssh_config::{host_block, host_line, hosts, properties, property_line, Host, Property};

#[test]
fn many_properties() {
    let (input, props) =
        properties("   \n\n\n      asd 123 345\n\n\nDave yes\n").expect("Could not parse properties");

    let expected_properties = vec![
        Property {
            key: "asd".to_string(),
            value: "123 345".to_string(),
        },
        Property {
            key: "Dave".to_string(),
            value: "yes".to_string(),
        },
    ];

    assert_eq!("\n", input);
    assert_eq!(expected_properties, props);
}

#[test]
fn many_properties_comments() {
    let data = r"
            HostName butt   #no butts   
            Asd=123
            #moar comment


            Blah whatever";

    let (input, props) =
        properties(data).expect("Could not parse a mix of properties and comments");

    let expected_properties = vec![
        Property {
            key: "HostName".to_string(),
            value: "butt".to_string(),
        },
        Property {
            key: "Asd".to_string(),
            value: "123".to_string(),
        },
        Property {
            key: "Blah".to_string(),
            value: "whatever".to_string(),
        },
    ];

    assert_eq!("", input);
    assert_eq!(expected_properties, props);
}

#[test]
fn property_line_equals() {
    let (input, property) =
        property_line("HostName=dev").expect("Could not parse property line with equals");

    let expected_property = Property {
        key: "HostName".to_string(),
        value: "dev".to_string(),
    };

    assert_eq!("", input);
    assert_eq!(expected_property, property);
}

#[test]
fn property_line_space() {
    let (input, property) =
        property_line("HostName dev").expect("Could not parse property line with space");

    let expected_property = Property {
        key: "HostName".to_string(),
        value: "dev".to_string(),
    };

    assert_eq!("", input);
    assert_eq!(expected_property, property);
}

#[test]
fn host_line_equals() {
    let (input, host) = host_line("Host=dev").expect("Could not parse host with equals");
    assert_eq!("", input);
    assert_eq!("dev", host);
}

#[test]
fn host_line_space() {
    let (input, host) = host_line("host dev").expect("Could not parse host with space");
    assert_eq!("", input);
    assert_eq!("dev", host);
}

#[test]
fn single_host_block() {
    let (input, host) = host_block(
        "  \n\n   \n\n\
             \n       Host dev\n   \
             Asd      123     \n\n",
    )
    .expect("Could not parse single host block");

    let expected_host = Host {
        name: "dev".to_string(),
        properties: vec![Property {
            key: "Asd".to_string(),
            value: "123".to_string(),
        }],
    };

    assert_eq!("\n\n", input);
    assert_eq!(expected_host, host);
}

#[test]
fn single_host_block_no_properties() {
    let (input, host) = host_block(
        "  \n\n   \n\n\
             \n       Host dev\n   \
             \n\n",
    )
    .expect("Could not parse single host block");

    let expected_host = Host {
        name: "dev".to_string(),
        properties: vec![],
    };

    assert_eq!("\n   \n\n", input);
    assert_eq!(expected_host, host);
}

#[test]
fn two_host_blocks_no_properties() {
    let (input, host) = host_block(
        "  \n\n   \n\n\
             \n       Host dev\n   \
             \n\n\
             Host zzz",
    )
    .expect("Could not parse single host block pair");

    let expected_host = Host {
        name: "dev".to_string(),
        properties: vec![],
    };

    assert_eq!("\n   \n\nHost zzz", input);
    assert_eq!(expected_host, host);
}

#[test]
fn many_hosts_no_properties() {
    let (input, host_list) = hosts(
        "  \n\n   \n\n\
             \n       Host dev\n   \
             \n\n\
             Host zzz",
    )
    .expect("Could not parse multiple empty hosts");

    let expected_hosts = vec![
        Host {
            name: "dev".to_string(),
            properties: vec![],
        },
        Host {
            name: "zzz".to_string(),
            properties: vec![],
        },
    ];

    assert_eq!("", input);
    assert_eq!(expected_hosts, host_list);
}

#[test]
fn many_hosts() {
    let (input, host_list) = hosts(
        "\n\n\n\n     Host old    \n\
            Asd    123\n\
            Test zz\
            \n\n\n\n\n\n\n\
            Host gregg\n
            #wut
            HostName hello\n\n\n\n
            Other thing\n\n\n",
    )
    .expect("Could not parse multple hosts with their properties");

    let expected_hosts = vec![
        Host {
            name: "old".to_string(),
            properties: vec![
                Property {
                    key: "Asd".to_string(),
                    value: "123".to_string(),
                },
                Property {
                    key: "Test".to_string(),
                    value: "zz".to_string(),
                },
            ],
        },
        Host {
            name: "gregg".to_string(),
            properties: vec![
                Property {
                    key: "HostName".to_string(),
                    value: "hello".to_string(),
                },
                Property {
                    key: "Other".to_string(),
                    value: "thing".to_string(),
                },
            ],
        },
    ];

    assert_eq!("", input);
    assert_eq!(expected_hosts, host_list);
}

#[test]
fn no_hosts() {
    let empty_input = "       ";
    let (input, host_list) = hosts(empty_input).expect("Could not parse empty string");
    let expected_hosts: Vec<Host> = vec![];

    assert_eq!(empty_input, input);
    assert_eq!(expected_hosts, host_list);
}

#[test]
fn property_as_host_line() {
    if property_line("       \n\nAsd 123\n\n\n").is_some() {
        panic!("Property is not allowed to be a host line");
    }
}

#[test]
fn proptery_as_host_block() {
    if host_block("       \n\nAsd 123\n\n\n").is_some() {
        panic!("Property is not allowed to be a host block");
    }
}

#[test]
fn proptery_as_hosts() {
    let bad_input = "       \n\nAsd 123\n\n\n";
    let (input, host_list) =
        hosts(bad_input).expect("Could not parse invalid string for host collection");

    let expected_hosts: Vec<Host> = vec![];

    assert_eq!(bad_input, input);
    assert_eq!(expected_hosts, host_list);
}

#[test]
fn property_line_rejects_empty_value() {
    assert!(property_line("Key=").is_none());
    assert!(property_line("Key=\nNext 1").is_none());
}

#[test]
fn hostname_key_is_a_property_not_a_host() {
    let (input, property) =
        property_line("hostname=foo").expect("Could not parse property with hostname key");

    let expected_property = Property {
        key: "hostname".to_string(),
        value: "foo".to_string(),
    };

    assert_eq!("", input);
    assert_eq!(expected_property, property);
}
