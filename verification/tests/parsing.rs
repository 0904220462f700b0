use email_address_list::error::Error;
use email_address_list::parser::parse_candidate;
use email_address_list::repair::{csv, ssv, string_entries, strip_commas};
use email_address_list::{
    parse_address_list, parse_contact, parse_optional_address_list, AddressList, Contact,
    Contactish, DeepEq, GarbageContact, Group,
};

fn garbage(text: &str) -> Contact {
    GarbageContact::new(text).into()
}

#[test]
fn name_and_bare_address() {
    let result = parse_address_list("Name <a@b.org>, c@d.org").unwrap();
    let expected: AddressList =
        vec![Contact::new("a@b.org").set_name("Name"), Contact::new("c@d.org")].into();
    assert!(result.deep_eq(&expected), "{:?}", result);
    assert!(!result.is_group());
}

#[test]
fn simple_group() {
    let result = parse_address_list("Group: a@b.org;").unwrap();
    let expected: AddressList = Group::new("Group").set_contacts(vec![Contact::new("a@b.org")]).into();
    assert!(result.deep_eq(&expected), "{:?}", result);
    assert_eq!(result.group_name().unwrap(), "Group");
}

#[test]
fn duplicates_are_preserved() {
    let result = parse_address_list("a@b.org, a@b.org").unwrap();
    let expected: AddressList = vec![Contact::new("a@b.org"), Contact::new("a@b.org")].into();
    assert!(result.deep_eq(&expected), "{:?}", result);
    assert_eq!(result.contacts().len(), 2);
}

#[test]
fn semicolons_with_commas_in_names() {
    let input = "Doe, John <john@example.org>; Roe, Jane <jane@example.org>";
    let result = parse_address_list(input).unwrap();
    let expected: AddressList = vec![
        Contact::new("john@example.org").set_name("Doe, John"),
        Contact::new("jane@example.org").set_name("Roe, Jane"),
    ]
    .into();
    assert!(result.deep_eq(&expected), "{:?}", result);

    let naive = input.split(',').filter(|piece| piece.contains('@')).count();
    let rewritten = strip_commas(&string_entries(&ssv(input)));
    assert_eq!(rewritten, "Doe, John <john@example.org>, Roe, Jane <jane@example.org>");
    let other = parse_candidate(&rewritten).unwrap();
    assert!(other.contacts().len() >= naive);
    assert!(other.contacts().len() >= csv(input).len());
    assert!(result.contacts().len() >= naive);
    assert!(other.deep_eq(&expected), "{:?}", other);
}

#[test]
fn semicolon_list_behind_a_stray_quote() {
    let result = parse_address_list("\"alice@example.org bob@example.org;").unwrap();
    let expected: AddressList =
        vec![Contact::new("alice@example.org"), Contact::new("bob@example.org")].into();
    assert!(result.deep_eq(&expected), "{:?}", result);
}

#[test]
fn address_hidden_in_a_comment_is_recovered() {
    let result = parse_address_list("<a@b.c> (see also <x@y.z>)").unwrap();
    let expected: AddressList = vec![
        Contact::new("a@b.c").set_comment("see also <x@y.z>"),
        Contact::new("x@y.z").set_name("(see also"),
    ]
    .into();
    assert!(result.deep_eq(&expected), "{:?}", result);

    let group = parse_address_list("Staff: <a@b.c> (see also <x@y.z>);").unwrap();
    let expected: AddressList = Group::new("Staff")
        .set_contacts(vec![
            Contact::new("a@b.c").set_comment("see also <x@y.z>"),
            Contact::new("x@y.z").set_name("(see also"),
        ])
        .into();
    assert!(group.deep_eq(&expected), "{:?}", group);
}

#[test]
fn repair_adds_no_contact_twice() {
    let result = parse_address_list("<a@b.c> (see also <a@b.c>)").unwrap();
    let expected: AddressList = vec![Contact::new("a@b.c").set_comment("see also <a@b.c>")].into();
    assert!(result.deep_eq(&expected), "{:?}", result);
}

#[test]
fn split_domain_is_mended() {
    let result = parse_address_list("<foo@exam ple.org>").unwrap();
    let expected: AddressList = vec![Contact::new("foo@example.org")].into();
    assert!(result.deep_eq(&expected), "{:?}", result);
}

#[test]
fn named_malformed_group() {
    let input = r#"Kikundi:  ,  "Jina"  (Maoni) <jina@example.org>, baruapepe@example.org;"#;
    let result = parse_address_list(input).unwrap();
    let manual: AddressList = Group::new("Kikundi")
        .set_contacts(vec![
            Contact::new("jina@example.org").set_name("Jina").set_comment("Maoni"),
            Contact::new("baruapepe@example.org"),
        ])
        .into();
    assert!(result.deep_eq(&manual), "{:?}", result);
}

#[test]
fn malformed_names_with_commas() {
    let input = r#"Przykład <przykład@example.org>, Példa, Rosszformázott <példa@example.org>"#;
    let manual: AddressList = vec![
        Contact::new("przykład@example.org").set_name("Przykład"),
        Contact::new("példa@example.org").set_name("Példa, Rosszformázott"),
    ]
    .into();
    let result = parse_address_list(input).unwrap();
    assert!(result.deep_eq(&manual), "{:?}", result);

    let manual: AddressList = vec![
        Contact::new("ríomhphost@example.org").set_name("Túsainm Sloinne"),
        Contact::new("sampla@example.org"),
    ]
    .into();
    let result =
        parse_address_list("Túsainm Sloinne <ríomhphost@example.org>, sampla@example.org").unwrap();
    assert!(result.deep_eq(&manual), "{:?}", result);
}

#[test]
fn nothing_to_parse_is_empty() {
    assert_eq!(parse_address_list("").unwrap_err(), Error::Empty);
    assert_eq!(parse_address_list("  \t\r\n ").unwrap_err(), Error::Empty);
    assert_eq!(parse_address_list("\u{a0}\u{3000}").unwrap_err(), Error::Empty);
    assert_eq!(parse_optional_address_list(None).unwrap_err(), Error::Empty);
    assert_eq!(parse_optional_address_list(Some("")).unwrap_err(), Error::Empty);
    assert_eq!(parse_optional_address_list(Some(" ")).unwrap_err(), Error::Empty);
    let some = parse_optional_address_list(Some("a@b.c")).unwrap();
    assert!(some.deep_eq(&vec![Contact::new("a@b.c")].into()));
}

#[test]
fn separators_alone_are_an_empty_list() {
    for input in [";", ",", ">", " , ; ", "<>", "< >;"] {
        let result = parse_address_list(input).unwrap();
        assert!(!result.is_group());
        assert_eq!(result.contacts().len(), 0, "{:?}", input);
    }
}

#[test]
fn text_without_at_is_garbage() {
    let cases: Vec<(&str, Vec<&str>)> = vec![
        ("hello", vec!["hello"]),
        ("Mist", vec!["Mist"]),
        ("Roses are red, violets are blue", vec!["Roses are red", "violets are blue"]),
        ("<script>alert(1)</script>", vec!["<script>alert(1)</script>"]),
        ("javascript:alert(1);", vec!["javascript:alert(1)"]),
        ("1;DROP TABLE users", vec!["1", "DROP TABLE users"]),
        (",./;'[]\\-=", vec!["./", "'[]\\-="]),
        ("<>?:\"{}|_+", vec!["?:\"{}|_+"]),
        ("Ω≈ç√∫˜µ≤≥÷", vec!["Ω≈ç√∫˜µ≤≥÷"]),
        ("田中さんにあげて下さい", vec!["田中さんにあげて下さい"]),
        ("(\");", vec!["(\")"]),
    ];
    for (input, texts) in cases {
        let result = parse_address_list(input).unwrap();
        assert!(!result.is_group(), "{:?}", input);
        let expected: AddressList = texts.iter().map(|t| garbage(t)).collect::<Vec<_>>().into();
        assert!(result.deep_eq(&expected), "{:?} gave {:?}", input, result);
        for contact in result.contacts() {
            assert!(contact.is_garbage());
        }
    }
}

#[test]
fn at_without_an_address_is_garbage_too() {
    for input in ["@", "a@", "@b", "@{[system \"touch /tmp/blns.fail\"]}", "<<a@b.c>>"] {
        let result = parse_address_list(input).unwrap();
        assert!(!result.is_group());
        assert_eq!(result.contacts().len(), 1, "{:?}", input);
        assert!(result.contacts()[0].is_garbage(), "{:?}", input);
        assert_eq!(result.contacts()[0].comment().unwrap(), input);
    }
}

#[test]
fn group_of_garbage_is_no_group() {
    let result = parse_address_list("Note: to be done").unwrap();
    assert!(!result.is_group());
    assert!(result.deep_eq(&vec![garbage("Note: to be done")].into()), "{:?}", result);
    let empty = parse_address_list("Versteckte-Empfaenger:;").unwrap();
    assert!(empty.deep_eq(&Group::new("Versteckte-Empfaenger").into()));
}

#[test]
fn single_contact() {
    let single = parse_contact("<retpoŝto+kontakto@example.org>").unwrap();
    assert!(single.deep_eq(&Contact::new("retpoŝto+kontakto@example.org")));
    let multiple = parse_contact("courriel@example.org, exemple@example.org").unwrap();
    assert!(multiple.deep_eq(&Contact::new("courriel@example.org")));
    match parse_contact("Mist").unwrap() {
        Contact::Garbage(_) => assert!(true),
        Contact::Email(_) => assert!(false),
    }
    assert!(parse_contact("Mist").unwrap().deep_eq(&garbage("Mist")));
    let group_like = parse_contact("Team: a@b.c;").unwrap();
    assert!(group_like.is_garbage());
    let padded = parse_contact("  , \"N\" (c) <a@b.c> (d), x@y.z").unwrap();
    assert!(padded.deep_eq(&Contact::new("a@b.c").set_name("N").set_comment("d")));
}

#[test]
fn single_contact_of_nothing_is_empty() {
    for input in [",", "", "  ", " >; ", "<>", ",,;;"] {
        match parse_contact(input) {
            Err(Error::Empty) => assert!(true),
            Ok(_) | Err(_) => assert!(false, "{:?}", input),
        }
    }
}
