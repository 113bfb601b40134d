use gedcom::event::EventType;
use gedcom::fault::FaultKind;
use gedcom::individual::{FamilyLinkType, Gender};
use gedcom::parser::Parser;
use gedcom::tree::GedcomData;

fn tree(text: &str) -> GedcomData {
    let parsed = Parser::new(text.chars()).parse_record().unwrap();
    assert_eq!(parsed.notices, vec![]);
    parsed.value
}

fn fault_kind(text: &str) -> FaultKind {
    Parser::new(text.chars()).parse_record().unwrap_err().kind
}

fn s(text: &str) -> Option<String> {
    Some(text.to_string())
}

const SAMPLE: &str = "\
0 HEAD
1 GEDC
2 VERS 5.5
2 FORM Lineage-Linked
1 SOUR SOFT
2 VERS 1.2
2 NAME The Software
2 CORP Makers Inc
3 ADDR 1 Main Street
4 CONT Springfield
4 CITY Springfield
4 STAE IL
4 POST 62701
4 CTRY USA
3 PHON 555-0100
3 EMAIL info@makers.example
3 FAX 555-0101
3 WWW makers.example
2 DATA Records of the town
3 DATE 1 JAN 1998
4 TIME 13:57:24.80
3 COPR Copyright of source data
4 CONT all rights
4 CONC reserved
1 DEST Anyone
1 DATE 2 OCT 2019
2 TIME 0:00:00
1 SUBM @U1@
1 SUBN @N1@
1 FILE sample.ged
1 COPR (c) 2019
1 CHAR UTF-8
2 VERS 13
1 LANG English
1 NOTE first line
2 CONT second line
2 CONC and on
2 MIME text/plain
2 LANG en
2 TRAN erste Zeile
3 MIME text/plain
3 LANG de
1 PLAC
2 FORM City, County, State, Country
1 _HASH abc
0 @U1@ SUBM
1 NAME Jane Doe
1 ADDR
2 ADR1 2 Side Street
2 ADR2 Floor 3
2 ADR3 Door 4
1 PHON 555-0199
1 LANG English
0 @I1@ INDI
1 NAME John /Doe/ Jr.
2 GIVN John
2 SURN Doe
2 NPFX Dr.
2 NSFX Jr.
2 SPFX van
1 SEX M
1 BIRT
2 DATE 1 JAN 1900
2 PLAC Springfield
2 SOUR @S1@
3 PAGE 42
1 DEAT
2 DATE 2 FEB 1980
1 EVEN
2 DATE 3 MAR 1950
1 FAMS @F1@
1 FAMC @F2@
2 PEDI adopted
1 CHAN
2 DATE 4 APR 2000
1 _CUSTOM yes
0 @F1@ FAM
1 HUSB @I1@
1 WIFE @I2@
1 CHIL @I3@
1 CHIL @I4@
1 MARR
2 DATE 5 MAY 1925
2 PLAC Shelbyville
0 @S1@ SOUR
1 DATA
2 EVEN BIRT, DEAT
3 DATE FROM 1890 TO 1990
3 PLAC Springfield
2 AGNC The Registry
1 ABBR Reg
1 TITL The Register
2 CONT of Springfield
1 REPO @R1@
2 CALN 13B-1234.01
0 @R1@ REPO
1 NAME The Archive
1 ADDR 3 Back Lane
2 CITY Capital City
0 TRLR
";

#[test]
fn the_header_is_read_with_all_its_parts() {
    let header = tree(SAMPLE).header;
    let gedcom = header.gedcom.unwrap();
    assert_eq!(gedcom.version, s("5.5"));
    assert_eq!(gedcom.form, s("Lineage-Linked"));
    let source = header.source.unwrap();
    assert_eq!(source.value, s("SOFT"));
    assert_eq!(source.version, s("1.2"));
    assert_eq!(source.name, s("The Software"));
    let corporation = source.corporation.unwrap();
    assert_eq!(corporation.value, s("Makers Inc"));
    assert_eq!(corporation.phone, s("555-0100"));
    assert_eq!(corporation.email, s("info@makers.example"));
    assert_eq!(corporation.fax, s("555-0101"));
    assert_eq!(corporation.website, s("makers.example"));
    let address = corporation.address.unwrap();
    assert_eq!(address.value, s("1 Main Street\nSpringfield"));
    assert_eq!(address.city, s("Springfield"));
    assert_eq!(address.state, s("IL"));
    assert_eq!(address.post, s("62701"));
    assert_eq!(address.country, s("USA"));
    let data = source.data.unwrap();
    assert_eq!(data.value, s("Records of the town"));
    let date = data.date.unwrap();
    assert_eq!(date.value, s("1 JAN 1998"));
    assert_eq!(date.time, s("13:57:24.80"));
    assert_eq!(data.copyright.unwrap().value, s("Copyright of source data\nall rights reserved"));
    assert_eq!(header.destination, s("Anyone"));
    let date = header.date.unwrap();
    assert_eq!(date.value, s("2 OCT 2019"));
    assert_eq!(date.time, s("0:00:00"));
    assert_eq!(header.submitter_tag, s("@U1@"));
    assert_eq!(header.submission_tag, s("@N1@"));
    assert_eq!(header.filename, s("sample.ged"));
    assert_eq!(header.copyright.unwrap().value, s("(c) 2019"));
    let encoding = header.encoding.unwrap();
    assert_eq!(encoding.value, s("UTF-8"));
    assert_eq!(encoding.version, s("13"));
    assert_eq!(header.language, s("English"));
    let note = header.note.unwrap();
    assert_eq!(note.value, s("first line\nsecond line and on"));
    assert_eq!(note.mime, s("text/plain"));
    assert_eq!(note.language, s("en"));
    let translation = note.translation.unwrap();
    assert_eq!(translation.value, s("erste Zeile"));
    assert_eq!(translation.mime, s("text/plain"));
    assert_eq!(translation.language, s("de"));
    assert_eq!(header.place.unwrap().form, vec!["City", "County", "State", "Country"]);
    assert_eq!(header.custom_data.len(), 1);
    assert_eq!(header.custom_data[0].tag, "_HASH");
    assert_eq!(header.custom_data[0].value, "abc");
}

#[test]
fn the_submitter_is_read() {
    let data = tree(SAMPLE);
    assert_eq!(data.submitters.len(), 1);
    let submitter = &data.submitters[0];
    assert_eq!(submitter.xref, s("U1"));
    assert_eq!(submitter.name, s("Jane Doe"));
    assert_eq!(submitter.phone, s("555-0199"));
    assert_eq!(submitter.language, s("English"));
    let address = submitter.address.clone().unwrap();
    assert_eq!(address.value, None);
    assert_eq!(address.adr1, s("2 Side Street"));
    assert_eq!(address.adr2, s("Floor 3"));
    assert_eq!(address.adr3, s("Door 4"));
}

#[test]
fn the_person_is_read() {
    let data = tree(SAMPLE);
    assert_eq!(data.individuals.len(), 1);
    let person = &data.individuals[0];
    assert_eq!(person.xref, s("I1"));
    let name = person.name.clone().unwrap();
    assert_eq!(name.value, s("John /Doe/ Jr."));
    assert_eq!(name.given, s("John"));
    assert_eq!(name.surname, s("Doe"));
    assert_eq!(name.prefix, s("Dr."));
    assert_eq!(name.suffix, s("Jr."));
    assert_eq!(name.surname_prefix, s("van"));
    assert_eq!(person.sex, Gender::Male);
    assert_eq!(person.events.len(), 3);
    assert_eq!(person.events[0].event, EventType::Birth);
    assert_eq!(person.events[0].date, s("1 JAN 1900"));
    assert_eq!(person.events[0].place, s("Springfield"));
    assert_eq!(person.events[0].citations.len(), 1);
    assert_eq!(person.events[0].citations[0].xref, "S1");
    assert_eq!(person.events[0].citations[0].page, s("42"));
    assert_eq!(person.events[1].event, EventType::Death);
    assert_eq!(person.events[1].date, s("2 FEB 1980"));
    assert_eq!(person.events[1].place, None);
    assert_eq!(person.events[2].event, EventType::Other);
    assert_eq!(person.families.len(), 2);
    assert_eq!(person.families[0].xref, "F1");
    assert_eq!(person.families[0].link_type, FamilyLinkType::Spouse);
    assert_eq!(person.families[0].pedigree, None);
    assert_eq!(person.families[1].xref, "F2");
    assert_eq!(person.families[1].link_type, FamilyLinkType::Child);
    assert_eq!(person.last_updated, s("4 APR 2000"));
    assert_eq!(person.custom_data.len(), 1);
    assert_eq!(person.custom_data[0].tag, "_CUSTOM");
    assert_eq!(person.custom_data[0].value, "yes");
}

#[test]
fn the_family_is_read() {
    let data = tree(SAMPLE);
    assert_eq!(data.families.len(), 1);
    let family = &data.families[0];
    assert_eq!(family.xref, s("F1"));
    assert_eq!(family.individual1, s("@I1@"));
    assert_eq!(family.individual2, s("@I2@"));
    assert_eq!(family.children, vec!["@I3@", "@I4@"]);
    assert_eq!(family.events.len(), 1);
    assert_eq!(family.events[0].event, EventType::Marriage);
    assert_eq!(family.events[0].date, s("5 MAY 1925"));
    assert_eq!(family.events[0].place, s("Shelbyville"));
}

#[test]
fn the_source_is_read() {
    let data = tree(SAMPLE);
    assert_eq!(data.sources.len(), 1);
    let source = &data.sources[0];
    assert_eq!(source.xref, s("S1"));
    assert_eq!(source.abbreviation, s("Reg"));
    assert_eq!(source.title, s("The Register\nof Springfield"));
    assert_eq!(source.data.agency, s("The Registry"));
    assert_eq!(source.data.events.len(), 1);
    assert_eq!(source.data.events[0].event, EventType::SourceData("BIRT, DEAT".to_string()));
    assert_eq!(source.data.events[0].date, s("FROM 1890 TO 1990"));
    assert_eq!(source.data.events[0].place, s("Springfield"));
    assert_eq!(source.repo_citations.len(), 1);
    assert_eq!(source.repo_citations[0].xref, "R1");
    assert_eq!(source.repo_citations[0].call_number, s("13B-1234.01"));
}

#[test]
fn the_repository_is_read() {
    let data = tree(SAMPLE);
    assert_eq!(data.repositories.len(), 1);
    let repository = &data.repositories[0];
    assert_eq!(repository.xref, s("R1"));
    assert_eq!(repository.name, s("The Archive"));
    let address = repository.address.clone().unwrap();
    assert_eq!(address.value, s("3 Back Lane"));
    assert_eq!(address.city, s("Capital City"));
}

#[test]
fn each_event_tag_has_its_kind() {
    for (tag, kind) in [
        ("ADOP", EventType::Adoption),
        ("BIRT", EventType::Birth),
        ("BAPM", EventType::Baptism),
        ("BARM", EventType::BarMitzvah),
        ("BASM", EventType::BasMitzvah),
        ("BLES", EventType::Blessing),
        ("BURI", EventType::Burial),
        ("CENS", EventType::Census),
        ("CHR", EventType::Christening),
        ("CHRA", EventType::AdultChristening),
        ("CONF", EventType::Confirmation),
        ("CREM", EventType::Cremation),
        ("DEAT", EventType::Death),
        ("EMIG", EventType::Emigration),
        ("FCOM", EventType::FirstCommunion),
        ("GRAD", EventType::Graduation),
        ("IMMI", EventType::Immigration),
        ("NATU", EventType::Naturalization),
        ("ORDN", EventType::Ordination),
        ("RETI", EventType::Retirement),
        ("RESI", EventType::Residence),
        ("PROB", EventType::Probate),
        ("WILL", EventType::Will),
        ("EVEN", EventType::Other),
    ] {
        let data = tree(&format!("0 INDI\n1 {}\n2 DATE 1900\n0 TRLR", tag));
        assert_eq!(data.individuals[0].events.len(), 1);
        assert_eq!(data.individuals[0].events[0].event, kind);
        assert_eq!(EventType::from_tag(tag), kind);
    }
    assert_eq!(EventType::from_tag("MARR"), EventType::Marriage);
    assert_eq!(EventType::from_tag("OTHER"), EventType::Other);
}

#[test]
fn a_marriage_is_no_event_of_a_person() {
    assert_eq!(fault_kind("0 INDI\n1 MARR\n0 TRLR"), FaultKind::UnknownField);
}

#[test]
fn every_record_keeps_custom_tags() {
    let data = tree(
        "0 INDI\n1 NAME a\n2 _N n\n1 BIRT\n2 _E e\n2 SOUR @S1@\n3 _C c\n1 FAMS @F1@\n2 _L l\n0 FAM\n1 _F f\n0 TRLR",
    );
    let person = &data.individuals[0];
    assert_eq!(person.name.clone().unwrap().custom_data[0].value, "n");
    assert_eq!(person.events[0].custom_data[0].value, "e");
    assert_eq!(person.events[0].citations[0].custom_data[0].value, "c");
    assert_eq!(person.families[0].custom_data[0].value, "l");
    assert_eq!(data.families[0].custom_data[0].tag, "_F");
}

#[test]
fn a_text_keeps_no_custom_tags() {
    assert_eq!(fault_kind("0 SOUR\n1 TITL t\n2 _X x\n0 TRLR"), FaultKind::UnexpectedToken);
    assert_eq!(fault_kind("0 INDI\n1 CHAN\n2 _X x\n0 TRLR"), FaultKind::UnexpectedToken);
}

#[test]
fn unknown_fields_are_faults_in_every_record() {
    for text in [
        "0 HEAD\n1 XXXX x\n0 TRLR",
        "0 HEAD\n1 GEDC\n2 XXXX x\n0 TRLR",
        "0 HEAD\n1 SOUR s\n2 XXXX x\n0 TRLR",
        "0 HEAD\n1 SOUR s\n2 CORP c\n3 XXXX x\n0 TRLR",
        "0 HEAD\n1 SOUR s\n2 DATA d\n3 XXXX x\n0 TRLR",
        "0 HEAD\n1 PLAC\n2 XXXX x\n0 TRLR",
        "0 HEAD\n1 COPR c\n2 XXXX x\n0 TRLR",
        "0 HEAD\n1 CHAR c\n2 XXXX x\n0 TRLR",
        "0 HEAD\n1 DATE d\n2 XXXX x\n0 TRLR",
        "0 HEAD\n1 NOTE n\n2 XXXX x\n0 TRLR",
        "0 HEAD\n1 NOTE n\n2 TRAN t\n3 XXXX x\n0 TRLR",
        "0 SUBM\n1 XXXX x\n0 TRLR",
        "0 SUBM\n1 ADDR a\n2 XXXX x\n0 TRLR",
        "0 INDI\n1 XXXX x\n0 TRLR",
        "0 INDI\n1 NAME n\n2 XXXX x\n0 TRLR",
        "0 INDI\n1 BIRT\n2 XXXX x\n0 TRLR",
        "0 INDI\n1 BIRT\n2 SOUR @S1@\n3 XXXX x\n0 TRLR",
        "0 INDI\n1 FAMC @F1@\n2 XXXX x\n0 TRLR",
        "0 INDI\n1 CHAN\n2 XXXX x\n0 TRLR",
        "0 FAM\n1 XXXX x\n0 TRLR",
        "0 SOUR\n1 XXXX x\n0 TRLR",
        "0 SOUR\n1 TITL t\n2 XXXX x\n0 TRLR",
        "0 SOUR\n1 REPO @R1@\n2 XXXX x\n0 TRLR",
        "0 SOUR\n1 DATA\n2 EVEN e\n3 XXXX x\n0 TRLR",
        "0 REPO\n1 XXXX x\n0 TRLR",
    ] {
        assert_eq!(fault_kind(text), FaultKind::UnknownField, "{:?}", text);
    }
}

#[test]
fn a_reference_that_is_no_pointer_is_kept_as_written() {
    let data = tree("0 INDI\n1 FAMS F9\n1 BIRT\n2 SOUR a book\n0 TRLR");
    assert_eq!(data.individuals[0].families[0].xref, "F9");
    assert_eq!(data.individuals[0].events[0].citations[0].xref, "a book");
}

#[test]
fn the_last_header_counts() {
    let data = tree("0 HEAD\n1 DEST a\n0 HEAD\n1 LANG b\n0 TRLR");
    assert_eq!(data.header.destination, None);
    assert_eq!(data.header.language, s("b"));
}

#[test]
fn records_are_kept_in_their_order() {
    let data = tree("0 @A@ INDI\n0 @B@ FAM\n0 @C@ INDI\n0 @D@ INDI\n0 TRLR");
    let ids: Vec<Option<String>> = data.individuals.iter().map(|p| p.xref.clone()).collect();
    assert_eq!(ids, vec![s("A"), s("C"), s("D")]);
    assert_eq!(data.families[0].xref, s("B"));
}

#[test]
fn an_address_may_begin_on_a_continuation() {
    let data = tree("0 REPO\n1 ADDR\n2 CONT second\n2 CONC more\n0 TRLR");
    assert_eq!(data.repositories[0].address.clone().unwrap().value, s("\nsecond more"));
}

#[test]
fn a_later_field_replaces_an_earlier_one() {
    let data = tree("0 INDI\n1 NAME a\n1 NAME b\n1 SEX F\n1 SEX M\n0 TRLR");
    assert_eq!(data.individuals[0].name.clone().unwrap().value, s("b"));
    assert_eq!(data.individuals[0].sex, Gender::Male);
}

#[test]
fn the_tree_collects_what_is_added() {
    let mut data = GedcomData::new();
    data.add_individual(gedcom::individual::Individual::new(s("I1")));
    data.add_family(gedcom::family::Family::new(None));
    data.add_source(gedcom::source::Source::new(s("S1")));
    data.add_repository(gedcom::repository::Repository::new(None));
    data.add_submitter(gedcom::submitter::Submitter::new(None));
    data.add_individual(gedcom::individual::Individual::new(s("I2")));
    assert_eq!(data.individuals.len(), 2);
    assert_eq!(data.individuals[1].xref, s("I2"));
    assert_eq!(data.families.len(), 1);
    assert_eq!(data.sources[0].xref, s("S1"));
    assert_eq!(data.repositories.len(), 1);
    assert_eq!(data.submitters.len(), 1);
}
