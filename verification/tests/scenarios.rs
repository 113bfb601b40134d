use gedcom::fault::{FaultKind, Notice, NoticeKind, Noted, ParseFault};
use gedcom::individual::{FamilyLinkType, Gender, Pedigree};
use gedcom::parser::Parser;
use gedcom::token::Token;
use gedcom::tree::GedcomData;

fn parse(text: &str) -> Result<Noted<GedcomData>, ParseFault> {
    Parser::new(text.chars()).parse_record()
}

fn tree(text: &str) -> GedcomData {
    let parsed = parse(text).unwrap();
    assert_eq!(parsed.notices, vec![]);
    parsed.value
}

#[test]
fn a_minimal_document_yields_its_header() {
    let data = tree("0 HEAD\n1 GEDC\n2 VERS 7.0\n0 TRLR");
    assert_eq!(data.header.gedcom.unwrap().version, Some("7.0".to_string()));
    assert_eq!(data.individuals.len(), 0);
    assert_eq!(data.families.len(), 0);
    assert_eq!(data.sources.len(), 0);
    assert_eq!(data.repositories.len(), 0);
    assert_eq!(data.submitters.len(), 0);
}

#[test]
fn an_unknown_record_is_skipped_and_the_next_one_is_read() {
    let parsed = parse("0 _UNKNOWN foo\n0 INDI\n0 TRLR").unwrap();
    assert_eq!(parsed.value.individuals.len(), 1);
    assert_eq!(
        parsed.notices,
        vec![Notice { kind: NoticeKind::Unsupported, line: 1, text: "_UNKNOWN".to_string() }]
    );
}

#[test]
fn a_skipped_record_takes_its_descendants_with_it() {
    let parsed = parse(
        "0 @O1@ OBJE\n1 FILE photo.jpg\n2 FORM jpeg\n0 @I1@ INDI\n1 SEX F\n0 _X\n1 _Y z\n0 TRLR",
    )
    .unwrap();
    assert_eq!(parsed.value.individuals.len(), 1);
    assert_eq!(parsed.value.individuals[0].xref, Some("I1".to_string()));
    assert_eq!(parsed.value.individuals[0].sex, Gender::Female);
    assert_eq!(
        parsed.notices,
        vec![
            Notice { kind: NoticeKind::Unsupported, line: 1, text: "OBJE".to_string() },
            Notice { kind: NoticeKind::Unsupported, line: 6, text: "_X".to_string() },
        ]
    );
}

#[test]
fn a_pointer_becomes_the_identifier_of_its_record() {
    let data = tree("0 @I1@ INDI\n0 TRLR");
    assert_eq!(data.individuals.len(), 1);
    assert_eq!(data.individuals[0].xref, Some("I1".to_string()));
}

#[test]
fn a_record_without_pointer_has_no_identifier() {
    let data = tree("0 INDI\n0 TRLR");
    assert_eq!(data.individuals[0].xref, None);
}

#[test]
fn a_person_is_linked_to_a_family_as_child() {
    let data = tree("0 @I1@ INDI\n1 FAMC @F1@\n2 PEDI birth\n0 TRLR");
    assert_eq!(data.individuals.len(), 1);
    let person = &data.individuals[0];
    assert_eq!(person.xref, Some("I1".to_string()));
    assert_eq!(person.families.len(), 1);
    assert_eq!(person.families[0].xref, "F1");
    assert_eq!(person.families[0].link_type, FamilyLinkType::Child);
    assert_eq!(person.families[0].pedigree, Some(Pedigree::Birth));
}

#[test]
fn an_unknown_field_is_a_fault_with_its_line() {
    let fault = parse("0 INDI\n1 UNKNOWNTAG x").unwrap_err();
    assert_eq!(
        fault,
        ParseFault {
            kind: FaultKind::UnknownField,
            line: 2,
            token: Token::Tag("UNKNOWNTAG".to_string()),
        }
    );
}

#[test]
fn an_unknown_field_is_a_fault_even_before_a_trailer() {
    let fault = parse("0 INDI\n1 NAME a\n1 UNKNOWNTAG x\n0 TRLR").unwrap_err();
    assert_eq!(fault.kind, FaultKind::UnknownField);
    assert_eq!(fault.line, 3);
}

#[test]
fn a_continued_text_joins_its_lines() {
    let data = tree("0 @S1@ SOUR\n1 TITL value  one\n2 CONT cont\tline\n2 CONC conc line\n0 TRLR");
    assert_eq!(data.sources[0].title, Some("value  one\ncont\tline conc line".to_string()));
}

#[test]
fn a_continued_text_keeps_the_order_of_its_lines() {
    let data = tree("0 SOUR\n1 ABBR a\n2 CONC b\n2 CONT c\n2 CONT d\n2 CONC e\n1 TITL t\n0 TRLR");
    assert_eq!(data.sources[0].abbreviation, Some("a b\nc\nd e".to_string()));
    assert_eq!(data.sources[0].title, Some("t".to_string()));
}

#[test]
fn a_record_ends_at_the_first_level_that_is_not_deeper() {
    let mut parser = Parser::new("0 INDI\n1 NAME John\n2 GIVN John\n1 SEX M\n0 FAM\n0 TRLR".chars());
    let data = parser.parse_record().unwrap().value;
    assert_eq!(data.individuals.len(), 1);
    let name = data.individuals[0].name.clone().unwrap();
    assert_eq!(name.value, Some("John".to_string()));
    assert_eq!(name.given, Some("John".to_string()));
    assert_eq!(data.individuals[0].sex, Gender::Male);
    assert_eq!(data.families.len(), 1);
}

#[test]
fn levels_are_compared_not_counted() {
    let data = tree("0 INDI\n5 NAME John\n9 GIVN Johnny\n3 SURN Doe\n1 SEX M\n0 TRLR");
    let person = &data.individuals[0];
    let name = person.name.clone().unwrap();
    assert_eq!(name.given, Some("Johnny".to_string()));
    assert_eq!(name.surname, Some("Doe".to_string()));
    assert_eq!(person.sex, Gender::Male);
}

#[test]
fn a_field_at_the_depth_of_its_record_belongs_to_the_parent() {
    let fault = parse("0 INDI\n1 NAME John\n1 GIVN Johnny\n0 TRLR").unwrap_err();
    assert_eq!(fault.kind, FaultKind::UnknownField);
    assert_eq!(fault.line, 3);
    assert_eq!(fault.token, Token::Tag("GIVN".to_string()));
}

#[test]
fn the_trailer_ends_the_document_whatever_follows() {
    let data = tree("0 INDI\n0 TRLR\n0 INDI\nthis is no line\n");
    assert_eq!(data.individuals.len(), 1);
}

#[test]
fn a_document_without_trailer_misses_a_level_at_its_end() {
    let fault = parse("0 HEAD\n1 GEDC\n2 VERS 7.0\n").unwrap_err();
    assert_eq!(fault.kind, FaultKind::MissingLevel);
    assert_eq!(fault.token, Token::Eof);
}

#[test]
fn the_empty_document_misses_a_level() {
    let fault = parse("").unwrap_err();
    assert_eq!(fault, ParseFault { kind: FaultKind::MissingLevel, line: 1, token: Token::Eof });
}

#[test]
fn a_line_without_level_is_a_missing_level_between_records() {
    let fault = parse("0 INDI\nnonsense\n0 TRLR").unwrap_err();
    assert_eq!(fault.kind, FaultKind::UnexpectedToken);
    assert_eq!(fault.line, 2);
    assert_eq!(fault.token, Token::Invalid);
    let fault = parse("nonsense\n0 TRLR").unwrap_err();
    assert_eq!(fault, ParseFault { kind: FaultKind::MissingLevel, line: 1, token: Token::Invalid });
}

#[test]
fn a_document_has_to_begin_at_depth_zero() {
    let fault = parse("1 NAME a\n0 TRLR").unwrap_err();
    assert_eq!(fault, ParseFault { kind: FaultKind::UnexpectedToken, line: 1, token: Token::Level(1) });
}

#[test]
fn a_record_needs_a_tag() {
    let fault = parse("0\n0 TRLR").unwrap_err();
    assert_eq!(fault, ParseFault { kind: FaultKind::UnexpectedToken, line: 2, token: Token::Level(0) });
    let fault = parse("0 @I1@").unwrap_err();
    assert_eq!(fault, ParseFault { kind: FaultKind::UnexpectedToken, line: 1, token: Token::Eof });
}

#[test]
fn a_missing_value_is_an_unexpected_token() {
    let fault = parse("0 INDI\n1 NAME\n0 TRLR").unwrap_err();
    assert_eq!(fault, ParseFault { kind: FaultKind::UnexpectedToken, line: 3, token: Token::Level(0) });
}

#[test]
fn a_value_where_none_belongs_is_an_unexpected_token() {
    let fault = parse("0 INDI oops\n0 TRLR").unwrap_err();
    assert_eq!(
        fault,
        ParseFault {
            kind: FaultKind::UnexpectedToken,
            line: 1,
            token: Token::LineValue("oops".to_string()),
        }
    );
}

#[test]
fn a_sex_outside_the_vocabulary_is_malformed() {
    let fault = parse("0 INDI\n1 SEX X\n0 TRLR").unwrap_err();
    assert_eq!(
        fault,
        ParseFault {
            kind: FaultKind::MalformedValue,
            line: 2,
            token: Token::LineValue("X".to_string()),
        }
    );
    let fault = parse("0 INDI\n1 SEX m\n0 TRLR").unwrap_err();
    assert_eq!(fault.kind, FaultKind::MalformedValue);
}

#[test]
fn the_sexes_are_four() {
    for (code, sex) in [
        ("M", Gender::Male),
        ("F", Gender::Female),
        ("N", Gender::Nonbinary),
        ("U", Gender::Unknown),
    ] {
        let data = tree(&format!("0 INDI\n1 SEX {}\n0 TRLR", code));
        assert_eq!(data.individuals[0].sex, sex);
    }
    assert_eq!(tree("0 INDI\n0 TRLR").individuals[0].sex, Gender::Unknown);
}

#[test]
fn a_pedigree_is_read_in_any_case() {
    for (word, pedigree) in [
        ("adopted", Pedigree::Adopted),
        ("BIRTH", Pedigree::Birth),
        ("Foster", Pedigree::Foster),
        ("sealing", Pedigree::Sealing),
    ] {
        let data = tree(&format!("0 INDI\n1 FAMC @F2@\n2 PEDI {}\n0 TRLR", word));
        assert_eq!(data.individuals[0].families[0].pedigree, Some(pedigree));
    }
}

#[test]
fn a_pedigree_outside_the_vocabulary_is_malformed() {
    let fault = parse("0 INDI\n1 FAMC @F2@\n2 PEDI step\n0 TRLR").unwrap_err();
    assert_eq!(
        fault,
        ParseFault {
            kind: FaultKind::MalformedValue,
            line: 3,
            token: Token::LineValue("step".to_string()),
        }
    );
}

#[test]
fn the_expected_form_is_accepted_in_any_case() {
    for form in ["LINEAGE-LINKED", "lineage-linked", "Lineage-Linked"] {
        let parsed = parse(&format!("0 HEAD\n1 GEDC\n2 VERS 5.5\n2 FORM {}\n0 TRLR", form)).unwrap();
        assert_eq!(parsed.notices, vec![]);
        assert_eq!(parsed.value.header.gedcom.unwrap().form, Some(form.to_string()));
    }
}

#[test]
fn another_form_is_kept_and_noted() {
    let parsed = parse("0 HEAD\n1 GEDC\n2 VERS 5.5\n2 FORM Tabular\n0 TRLR").unwrap();
    assert_eq!(
        parsed.notices,
        vec![Notice { kind: NoticeKind::FormatWarning, line: 4, text: "Tabular".to_string() }]
    );
    let gedcom = parsed.value.header.gedcom.unwrap();
    assert_eq!(gedcom.form, Some("Tabular".to_string()));
    assert_eq!(gedcom.version, Some("5.5".to_string()));
}

#[test]
fn notices_come_in_the_order_of_the_document() {
    let parsed = parse("0 _A x\n0 HEAD\n1 GEDC\n2 FORM odd\n0 NOTE n\n1 CONT m\n0 TRLR").unwrap();
    assert_eq!(
        parsed.notices,
        vec![
            Notice { kind: NoticeKind::Unsupported, line: 1, text: "_A".to_string() },
            Notice { kind: NoticeKind::FormatWarning, line: 4, text: "odd".to_string() },
            Notice { kind: NoticeKind::Unsupported, line: 5, text: "NOTE".to_string() },
        ]
    );
}

#[test]
fn the_parser_labels_its_line() {
    let parser = Parser::new("0 HEAD\n0 TRLR".chars());
    assert_eq!(parser.dbg(), "line 1:");
    assert_eq!(parser.line(), 1);
    let mut parser = Parser::new("0 INDI\n1 SEX M\n0 TRLR".chars());
    parser.parse_record().unwrap();
    assert_eq!(parser.dbg(), "line 3:");
}

#[test]
fn a_custom_tag_is_read_with_its_value() {
    let mut parser = Parser::new("1 _MILT served\n1 NAME x".chars());
    let tokenizer_at_level = parser.line();
    assert_eq!(tokenizer_at_level, 1);
    let data = tree("0 INDI\n1 _MILT served\n0 TRLR");
    assert_eq!(data.individuals[0].custom_data.len(), 1);
    assert_eq!(data.individuals[0].custom_data[0].tag, "_MILT");
    assert_eq!(data.individuals[0].custom_data[0].value, "served");
    let fault = parser.parse_custom_tag("_MILT".to_string()).unwrap_err();
    assert_eq!(fault.kind, FaultKind::UnexpectedToken);
    assert_eq!(fault.token, Token::Level(1));
}

#[test]
fn a_custom_tag_without_value_is_a_fault() {
    let fault = parse("0 INDI\n1 _MILT\n0 TRLR").unwrap_err();
    assert_eq!(fault, ParseFault { kind: FaultKind::UnexpectedToken, line: 3, token: Token::Level(0) });
}

#[test]
fn a_line_with_a_level_only_is_passed_over_inside_a_record() {
    let data = tree("0 INDI\n1\n2\n1 SEX M\n0 TRLR");
    assert_eq!(data.individuals[0].sex, Gender::Male);
}

#[test]
fn a_long_document_is_read() {
    let mut text = String::from("0 HEAD\n1 GEDC\n2 VERS 5.5.1\n2 FORM LINEAGE-LINKED\n");
    for i in 0..5000 {
        text.push_str(&format!(
            "0 @I{}@ INDI\n1 NAME Person /Number{}/\n2 GIVN Person\n2 SURN Number{}\n1 SEX U\n1 BIRT\n2 DATE {} JAN 1900\n1 FAMC @F{}@\n",
            i, i, i, i % 28 + 1, i / 4
        ));
    }
    text.push_str("0 @S1@ SOUR\n1 TITL A long text\n");
    for i in 0..2000 {
        text.push_str(&format!("2 CONT line {}\n", i));
    }
    text.push_str("0 TRLR\n");
    let data = tree(&text);
    assert_eq!(data.individuals.len(), 5000);
    assert_eq!(data.individuals[4999].xref, Some("I4999".to_string()));
    assert_eq!(data.individuals[4999].families[0].xref, "F1249");
    assert_eq!(data.individuals[17].events[0].date, Some("18 JAN 1900".to_string()));
    let title = data.sources[0].title.clone().unwrap();
    assert_eq!(title.lines().count(), 2001);
    assert!(title.ends_with("\nline 1999"));
}

#[test]
fn a_fault_deep_in_a_long_document_names_its_line() {
    let mut text = String::new();
    for i in 0..300 {
        text.push_str(&format!("0 @I{}@ INDI\n1 SEX F\n", i));
    }
    text.push_str("0 INDI\n1 NAME\n");
    let fault = parse(&text).unwrap_err();
    assert_eq!(fault.kind, FaultKind::UnexpectedToken);
    assert_eq!(fault.line, 603);
    assert_eq!(fault.token, Token::Eof);
}

#[test]
fn text_that_is_not_ascii_is_kept() {
    let data = tree("0 @Ä1@ INDI\n1 NAME Jürgen /Müller/\n2 GIVN 太郎\n1 _ÉTAT été\n0 TRLR");
    let person = &data.individuals[0];
    assert_eq!(person.xref, Some("Ä1".to_string()));
    let name = person.name.clone().unwrap();
    assert_eq!(name.value, Some("Jürgen /Müller/".to_string()));
    assert_eq!(name.given, Some("太郎".to_string()));
    assert_eq!(person.custom_data[0].tag, "_ÉTAT");
    assert_eq!(person.custom_data[0].value, "été");
}

#[test]
fn a_parser_can_be_asked_again_after_the_trailer() {
    let mut parser = Parser::new("0 INDI\n0 TRLR".chars());
    assert_eq!(parser.parse_record().unwrap().value.individuals.len(), 1);
    let fault = parser.parse_record().unwrap_err();
    assert_eq!(fault.kind, FaultKind::MissingLevel);
    assert_eq!(fault.token, Token::Tag("TRLR".to_string()));
}
