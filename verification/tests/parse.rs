use world_manifest::model::Alignment;
use world_manifest::model::ParseError;
use world_manifest::parse;

const WORLD: &str = "\
things 1234
monsters 234
creatables 345
zones 6
zone 1 24 \"first\"
zone 2 53 \"second\" unaligned \"Kaladrin\"
zone 3 10 \"third\" good
zone 10 11 \"fourth\" evil
zone 11 12 \"fifth\" neutral
zone 12 5 \"six and space\" 75
";

#[test]
fn parse_world() {
    let result = parse(WORLD);
    assert!(result.is_ok(), "Not correct parse result: {:?}", result);
    let result = result.unwrap();
    assert_eq!(result.n_things, 1234);
    assert_eq!(result.n_monsters, 234);
    assert_eq!(result.n_creatables, 345);
    assert_eq!(result.zones.len(), 6);
    assert_eq!(result.zones[0].nr, 1);
    assert_eq!(result.zones[0].n_rooms, 24);
    assert_eq!(result.zones[0].align, None);
    assert_eq!(result.zones[0].name, "first");
    assert_eq!(result.zones[0].uid, None);
    assert_eq!(result.zones[1].nr, 2);
    assert_eq!(result.zones[1].n_rooms, 53);
    assert_eq!(result.zones[1].align, Some(Alignment::Unaligned));
    assert_eq!(result.zones[1].owner, Some("Kaladrin".to_owned()));
    assert_eq!(result.zones[2].nr, 3);
    assert_eq!(result.zones[2].align, Some(Alignment::Good));
    assert_eq!(result.zones[3].nr, 10);
    assert_eq!(result.zones[3].align, Some(Alignment::Evil));
    assert_eq!(result.zones[4].nr, 11);
    assert_eq!(result.zones[4].align, Some(Alignment::Neutral));
    assert_eq!(result.zones[5].nr, 12);
    assert_eq!(result.zones[5].name, "six and space");
    assert_eq!(result.zones[5].uid, Some(75));
}

#[test]
fn file_names_always_empty() {
    let result = parse(WORLD).unwrap();
    assert!(result.file_names.is_empty());
}

#[test]
fn owner_without_uid() {
    let result = parse(WORLD).unwrap();
    assert_eq!(result.zones[1].owner, Some("Kaladrin".to_owned()));
    assert_eq!(result.zones[1].uid, None);
}

#[test]
fn uid_without_align_and_owner() {
    let result = parse(WORLD).unwrap();
    assert_eq!(result.zones[5].align, None);
    assert_eq!(result.zones[5].owner, None);
    assert_eq!(result.zones[5].uid, Some(75));
}

#[test]
fn declared_count_mismatch_uses_actual_count() {
    let doc = "things 1 monsters 2 creatables 3 zones 100 \
               zone 1 2 \"a\" zone 2 3 \"b\"";
    let result = parse(doc).unwrap();
    assert_eq!(result.zones.len(), 2);
    let doc0 = "things 1 monsters 2 creatables 3 zones 9 \
                zone 7 8 \"only\"";
    let result0 = parse(doc0).unwrap();
    assert_eq!(result0.zones.len(), 1);
    assert_eq!(result0.zones[0].nr, 7);
}

#[test]
fn zone_without_optionals_has_all_absent() {
    let doc = "things 1 monsters 1 creatables 1 zones 1 zone 5 6 \"bare\"";
    let result = parse(doc).unwrap();
    assert_eq!(result.zones.len(), 1);
    assert_eq!(result.zones[0].nr, 5);
    assert_eq!(result.zones[0].n_rooms, 6);
    assert_eq!(result.zones[0].name, "bare");
    assert_eq!(result.zones[0].align, None);
    assert_eq!(result.zones[0].owner, None);
    assert_eq!(result.zones[0].uid, None);
}

#[test]
fn zone_with_only_alignment() {
    let doc = "things 1 monsters 1 creatables 1 zones 1 zone 5 6 \"z\" evil";
    let result = parse(doc).unwrap();
    assert_eq!(result.zones[0].align, Some(Alignment::Evil));
    assert_eq!(result.zones[0].owner, None);
    assert_eq!(result.zones[0].uid, None);
}

#[test]
fn alignment_matching_is_case_insensitive() {
    for word in ["GOOD", "Good", "good", "gOoD"] {
        let doc = format!(
            "things 1 monsters 1 creatables 1 zones 1 zone 5 6 \"z\" {}",
            word
        );
        let result = parse(&doc).unwrap();
        assert_eq!(result.zones[0].align, Some(Alignment::Good));
    }
    let doc = "things 1 monsters 1 creatables 1 zones 1 zone 5 6 \"z\" UNALIGNED";
    assert_eq!(
        parse(doc).unwrap().zones[0].align,
        Some(Alignment::Unaligned)
    );
    let doc = "things 1 monsters 1 creatables 1 zones 1 zone 5 6 \"z\" NeUtRaL";
    assert_eq!(parse(doc).unwrap().zones[0].align, Some(Alignment::Neutral));
}

#[test]
fn unrecognized_alignment_becomes_absent() {
    let doc = "things 1 monsters 1 creatables 1 zones 1 zone 5 6 \"z\" chaotic";
    let result = parse(doc).unwrap();
    assert_eq!(result.zones.len(), 1);
    assert_eq!(result.zones[0].align, None);
    // A later optional field still follows an unrecognized alignment word.
    let doc2 = "things 1 monsters 1 creatables 1 zones 1 \
                zone 5 6 \"z\" chaotic \"Owner\" 9";
    let result2 = parse(doc2).unwrap();
    assert_eq!(result2.zones[0].align, None);
    assert_eq!(result2.zones[0].owner, Some("Owner".to_owned()));
    assert_eq!(result2.zones[0].uid, Some(9));
}

#[test]
fn missing_room_count_is_a_syntax_failure() {
    let doc = "things 1 monsters 1 creatables 1 zones 1 zone 5 \"bare\"";
    assert!(parse(doc).is_err());
}

#[test]
fn nondigit_leading_count_is_a_syntax_failure() {
    let doc = "things lots monsters 1 creatables 1 zones 0";
    assert!(parse(doc).is_err());
    let doc2 = "things 12x monsters 1 creatables 1 zones 0";
    assert!(parse(doc2).is_err());
}

#[test]
fn missing_header_field_is_a_syntax_failure() {
    assert!(parse("things 1 monsters 2 creatables 3").is_err());
    assert!(parse("things 1 monsters 2 zones 0").is_err());
    assert!(parse("").is_err());
}

#[test]
fn trailing_garbage_is_a_syntax_failure() {
    let doc = "things 1 monsters 1 creatables 1 zones 0 leftover";
    assert!(parse(doc).is_err());
    let doc2 = "things 1 monsters 1 creatables 1 zones 1 zone 1 2 \"a\" evil stray stray";
    assert!(parse(doc2).is_err());
}

#[test]
fn unterminated_name_is_a_syntax_failure() {
    let doc = "things 1 monsters 1 creatables 1 zones 1 zone 1 2 \"open";
    assert!(parse(doc).is_err());
}

#[test]
fn numbers_out_of_u32_range_are_rejected() {
    let doc = "things 4294967296 monsters 1 creatables 1 zones 0";
    assert!(parse(doc).is_err());
    let doc2 = "things 4294967295 monsters 0 creatables 0 zones 0";
    let result = parse(doc2).unwrap();
    assert_eq!(result.n_things, u32::MAX);
}

#[test]
fn empty_zone_list_is_valid() {
    let doc = "things 0 monsters 0 creatables 0 zones 0";
    let result = parse(doc).unwrap();
    assert_eq!(result.zones.len(), 0);
    assert!(result.file_names.is_empty());
}

#[test]
fn whitespace_layout_is_free() {
    let doc = "things\t1\nmonsters  2\r\ncreatables 3 zones 0\n";
    let result = parse(doc).unwrap();
    assert_eq!(result.n_things, 1);
    assert_eq!(result.n_monsters, 2);
    assert_eq!(result.n_creatables, 3);
}

#[test]
fn error_message_is_fixed() {
    let err: ParseError = parse("not a manifest").unwrap_err();
    assert_eq!(err.message(), "invalid world file");
}
