use email_address_list::parser::parse_candidate;
use email_address_list::repair::{
    add_absent_contacts, csv, expand_undelimited, holds, repair, ssv, string_entries,
    strip_commas, weigh,
};
use email_address_list::{AddressList, Contact, Contactish, DeepEq, GarbageContact, Group};

fn strings(items: &[&str]) -> Vec<String> {
    items.iter().map(|s| s.to_string()).collect()
}

#[test]
fn weight_counts_the_bytes_that_matter() {
    assert_eq!(weigh(""), 0);
    assert_eq!(weigh("a, \"b\" <c>' d"), 4);
    assert_eq!(weigh("Ötsi ü€𝄞"), 14);
    assert_eq!(weigh(" \t\r\n\u{a0}\u{2003}\u{3000},\"'<>"), 0);
    assert_eq!(weigh("a;b:c(d)"), 8);
    assert_eq!(weigh("\u{7f}\u{80}\u{7ff}\u{800}\u{ffff}\u{10000}"), 1 + 2 + 2 + 3 + 3 + 4);
}

#[test]
fn comma_entries_keep_quoted_commas_together() {
    assert_eq!(
        csv("Name <a@b.org>, \"Doe, John\" <j@d.org>, plain, c@d.org"),
        strings(&["Name <a@b.org>", " \"Doe, John\" <j@d.org>", " c@d.org"])
    );
    assert_eq!(csv("no address here, none at all"), Vec::<String>::new());
    assert_eq!(csv(""), Vec::<String>::new());
    assert_eq!(
        csv("\"a \\\" b\" <x@y.z>, q@r.s"),
        strings(&["\"a \\\" b\" <x@y.z>", " q@r.s"])
    );
}

#[test]
fn semicolon_entries_keep_quoted_semicolons_together() {
    assert_eq!(
        ssv("a@b.org; \"x; y\" <c@d.org>;e@f.org"),
        strings(&["a@b.org", " \"x; y\" <c@d.org>", "e@f.org"])
    );
    assert_eq!(
        ssv("\"alice@example.org bob@example.org;"),
        strings(&["", "alice@example.org bob@example.org", ""])
    );
    assert_eq!(ssv(";"), strings(&["", ""]));
}

#[test]
fn undelimited_addresses_are_broken_apart() {
    assert_eq!(
        expand_undelimited(strings(&[
            "<a@b.c><d@e.f>",
            "x@y.z",
            "n <q@r.s> tail",
            "a>>b",
            "<only",
        ])),
        strings(&["<a@b.c>", "<d@e.f>", "x@y.z", "n <q@r.s>", " tail", "a", "b", "<only"])
    );
    assert_eq!(expand_undelimited(strings(&[">", ">>", ""])), strings(&[""]));
    assert_eq!(expand_undelimited(Vec::new()), Vec::<String>::new());
    assert_eq!(expand_undelimited(strings(&["a<b>c<d"])), strings(&["a<b>", "c<d>"]));
}

#[test]
fn entries_in_a_row() {
    assert_eq!(string_entries(&strings(&["a", "", "b"])), "a,,b,");
    assert_eq!(string_entries(&Vec::new()), "");
    assert_eq!(strip_commas("a,,b,,"), "a,,b");
    assert_eq!(strip_commas(",,"), "");
    assert_eq!(strip_commas(",a"), ",a");
    assert_eq!(strip_commas(""), "");
    assert!(holds("a;b", ';'));
    assert!(!holds("a,b", ';'));
    assert!(!holds("", ';'));
}

#[test]
fn absent_contacts_are_appended_once() {
    let list: AddressList = vec![Contact::new("a@b.c").set_name("Kept")].into();
    let entries = strings(&[
        "x@y.z",
        "junk",
        "Other <a@b.c>",
        "  ",
        ",",
        "X <x@y.z>",
        "new@e.f (Name)",
    ]);
    let more = add_absent_contacts(&entries, list).unwrap();
    let expected: AddressList = vec![
        Contact::new("a@b.c").set_name("Kept"),
        Contact::new("x@y.z"),
        Contact::new("new@e.f").set_name("Name"),
    ]
    .into();
    assert!(more.deep_eq(&expected), "{:?}", more);
}

#[test]
fn absent_contacts_join_the_group() {
    let group: AddressList = Group::new("Team").set_contacts(vec![Contact::new("a@b.c")]).into();
    let more = add_absent_contacts(&strings(&["a@b.c", "d@e.f"]), group).unwrap();
    let expected: AddressList =
        Group::new("Team").set_contacts(vec![Contact::new("a@b.c"), Contact::new("d@e.f")]).into();
    assert!(more.deep_eq(&expected), "{:?}", more);
}

#[test]
fn garbage_in_the_list_hides_no_address() {
    let list: AddressList = vec![GarbageContact::new("junk").into()].into();
    let more = add_absent_contacts(&strings(&["more junk", "a@b.c"]), list).unwrap();
    let expected: AddressList =
        vec![GarbageContact::new("junk").into(), Contact::new("a@b.c")].into();
    assert!(more.deep_eq(&expected), "{:?}", more);
}

#[test]
fn a_candidate_that_lost_nothing_is_kept() {
    let candidate: AddressList = vec![Contact::new("a@b.c")].into();
    let kept = repair("a@b.c, d@e.f", candidate).unwrap();
    assert!(kept.deep_eq(&vec![Contact::new("a@b.c"), Contact::new("d@e.f")].into()), "{:?}", kept);
    let full: AddressList = vec![Contact::new("a@b.c"), Contact::new("d@e.f")].into();
    let same = repair("a@b.c", full).unwrap();
    assert_eq!(same.contacts().len(), 2);
}

#[test]
fn the_other_reading_wins_where_it_is_better() {
    let input = "\"alice@example.org bob@example.org;";
    let candidate = parse_candidate(input).unwrap();
    assert_eq!(candidate.contacts().len(), 1);
    assert!(candidate.contacts()[0].is_garbage());
    let repaired = repair(input, candidate).unwrap();
    let expected: AddressList =
        vec![Contact::new("alice@example.org"), Contact::new("bob@example.org")].into();
    assert!(repaired.deep_eq(&expected), "{:?}", repaired);
}

#[test]
fn a_group_has_no_other_reading() {
    let group: AddressList = Group::new("G").into();
    let repaired = repair("\"alice@example.org bob@example.org;", group).unwrap();
    let expected: AddressList =
        Group::new("G").set_contacts(vec![Contact::new("alice@example.org")]).into();
    assert!(repaired.deep_eq(&expected), "{:?}", repaired);
}
