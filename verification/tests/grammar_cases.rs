use epubcfi::error::ParseError;
use epubcfi::parsers::{
    assertion, character_offset, fragment, local_path, number_bits, offset, parameter,
    parameter1, params_or_value, parse_fragment, path, path_or_offset, range, redirected_path,
    spatial_offset, spatial_offset_from, step, temporal_offset, temporal_offset_from,
};
use epubcfi::syntax::{
    Assertion, CharacterOffset, Fragment, LocalPath, Offset, Path, Range, RedirectedPath,
    SpatialOffset, Step, TemporalOffset, ToOffset,
};

fn bits(value: f32) -> u32 {
    value.to_bits()
}

fn pair(key: &str, value: &str) -> (String, String) {
    (key.to_string(), value.to_string())
}

fn plain(steps: &[u8]) -> LocalPath {
    LocalPath::new_with_offset(steps.iter().map(|size| Step::new(*size, None)).collect(), None)
}

#[test]
fn step_reads_every_index_up_to_255() {
    for n in 0u32..=255 {
        let text = format!("/{}", n);
        assert_eq!(step(&text), Ok(("", Step::new(n as u8, None))));
    }
}

#[test]
fn step_rejects_an_index_above_255() {
    assert_eq!(step("/256"), Err(ParseError::Syntax));
    assert_eq!(step("/1000"), Err(ParseError::Syntax));
    assert_eq!(step("/99999999999999999999"), Err(ParseError::Syntax));
}

#[test]
fn step_reads_leading_zeros() {
    assert_eq!(step("/007"), Ok(("", Step::new(7, None))));
    assert_eq!(step("/0000255"), Ok(("", Step::new(255, None))));
}

#[test]
fn step_needs_a_slash_and_a_digit() {
    assert_eq!(step(""), Err(ParseError::Syntax));
    assert_eq!(step("6"), Err(ParseError::Syntax));
    assert_eq!(step("/"), Err(ParseError::Syntax));
    assert_eq!(step("/x"), Err(ParseError::Syntax));
    assert_eq!(step("//6"), Err(ParseError::Syntax));
}

#[test]
fn step_leaves_what_follows() {
    assert_eq!(step("/6/4"), Ok(("/4", Step::new(6, None))));
    assert_eq!(step("/6:10"), Ok((":10", Step::new(6, None))));
    assert_eq!(step("/6\u{e9}"), Ok(("\u{e9}", Step::new(6, None))));
}

#[test]
fn step_skips_a_bracket_that_is_no_assertion() {
    assert_eq!(step("/6[]"), Ok(("[]", Step::new(6, None))));
    assert_eq!(step("/6[a"), Ok(("[a", Step::new(6, None))));
    assert_eq!(step("/6[a=b"), Ok(("[a=b", Step::new(6, None))));
    assert_eq!(step("/6[a=b;]"), Ok(("[a=b;]", Step::new(6, None))));
}

#[test]
fn step_reads_an_assertion_with_parameters() {
    assert_eq!(
        step("/2[lang=en]/4"),
        Ok((
            "/4",
            Step::new(2, Some(Assertion::new(Some(vec![pair("lang", "en")]), None)))
        ))
    );
}

#[test]
fn assertion_with_one_parameter() {
    assert_eq!(
        assertion("[id=chap01]"),
        Ok(("", Assertion::new(Some(vec![pair("id", "chap01")]), None)))
    );
}

#[test]
fn assertion_with_two_parameters_keeps_their_order() {
    assert_eq!(
        assertion("[b=2;a=1]"),
        Ok((
            "",
            Assertion::new(Some(vec![pair("b", "2"), pair("a", "1")]), None)
        ))
    );
}

#[test]
fn assertion_with_digits_is_a_bare_value() {
    assert_eq!(
        assertion("[0042]rest"),
        Ok(("rest", Assertion::new(None, Some("0042".to_string()))))
    );
    assert_eq!(
        assertion("[8]"),
        Ok(("", Assertion::new(None, Some("8".to_string()))))
    );
}

#[test]
fn assertion_with_letters_is_a_bare_value() {
    assert_eq!(
        assertion("[chap01ref]"),
        Ok(("", Assertion::new(None, Some("chap01ref".to_string()))))
    );
    assert_eq!(
        assertion("[12a]/2"),
        Ok(("/2", Assertion::new(None, Some("12a".to_string()))))
    );
}

#[test]
fn assertion_errors() {
    assert_eq!(assertion(""), Err(ParseError::Syntax));
    assert_eq!(assertion("id=1]"), Err(ParseError::Syntax));
    assert_eq!(assertion("[]"), Err(ParseError::Assertion));
    assert_eq!(assertion("["), Err(ParseError::Assertion));
    assert_eq!(assertion("[12"), Err(ParseError::Assertion));
    assert_eq!(assertion("[abc"), Err(ParseError::Assertion));
    assert_eq!(assertion("[a-b]"), Err(ParseError::Assertion));
    assert_eq!(assertion("[\u{e9}]"), Err(ParseError::Assertion));
    assert_eq!(assertion("[a=1"), Err(ParseError::Assertion));
    assert_eq!(assertion("[a=1;]"), Err(ParseError::Assertion));
    assert_eq!(assertion("[a=1;b]"), Err(ParseError::Assertion));
    assert_eq!(assertion("[a=]"), Err(ParseError::Assertion));
    assert_eq!(assertion("[=1]"), Err(ParseError::Assertion));
    assert_eq!(assertion("[a b=1]"), Err(ParseError::Assertion));
}

#[test]
fn assertion_accessors() {
    let (_, list) = assertion("[a=1]").unwrap();
    assert_eq!(list.parameters(), &Some(vec![pair("a", "1")]));
    assert_eq!(list.value(), &None);
    let (_, bare) = assertion("[7]").unwrap();
    assert_eq!(bare.parameters(), &None);
    assert_eq!(bare.value(), &Some("7".to_string()));
    assert_eq!(bare.clone(), bare);
}

#[test]
fn parameter_needs_both_sides() {
    assert_eq!(parameter("a=1;b=2"), Ok((";b=2", ("a", "1"))));
    assert_eq!(parameter("a"), Err(ParseError::Syntax));
    assert_eq!(parameter("a="), Err(ParseError::Syntax));
    assert_eq!(parameter("=1"), Err(ParseError::Syntax));
    assert_eq!(parameter(""), Err(ParseError::Syntax));
}

#[test]
fn parameter1_stops_before_a_separator_without_parameter() {
    assert_eq!(parameter1("a=1;"), Ok((";", vec![("a", "1")])));
    assert_eq!(parameter1("a=1;b"), Ok((";b", vec![("a", "1")])));
    assert_eq!(
        parameter1("a=1;b=2;c=3]"),
        Ok(("]", vec![("a", "1"), ("b", "2"), ("c", "3")]))
    );
    assert_eq!(parameter1(";a=1"), Err(ParseError::Syntax));
}

#[test]
fn params_or_value_prefers_parameters() {
    assert_eq!(
        params_or_value("12=ab]"),
        Ok(("]", (Some(vec![("12", "ab")]), None)))
    );
    assert_eq!(params_or_value("12ab]"), Ok(("]", (None, Some("12ab")))));
    assert_eq!(params_or_value("ab=]"), Ok(("=]", (None, Some("ab")))));
    assert_eq!(params_or_value("]"), Err(ParseError::Syntax));
    assert_eq!(params_or_value("=1"), Err(ParseError::Syntax));
    assert_eq!(params_or_value(""), Err(ParseError::Syntax));
}

#[test]
fn character_offset_bounds() {
    assert_eq!(
        character_offset(":4294967295"),
        Ok(("", CharacterOffset::new(4294967295, None).to_offset()))
    );
    assert_eq!(character_offset(":4294967296"), Err(ParseError::Syntax));
    assert_eq!(character_offset(":"), Err(ParseError::Syntax));
    assert_eq!(character_offset("10"), Err(ParseError::Syntax));
    assert_eq!(
        character_offset(":0[]"),
        Ok(("[]", CharacterOffset::new(0, None).to_offset()))
    );
}

#[test]
fn number_bits_reads_decimal_and_exponent_notation() {
    assert_eq!(number_bits("2.5:"), Ok((":", bits(2.5))));
    assert_eq!(number_bits("-0.25"), Ok(("", bits(-0.25))));
    assert_eq!(number_bits("+3"), Ok(("", bits(3.0))));
    assert_eq!(number_bits(".5"), Ok(("", bits(0.5))));
    assert_eq!(number_bits("11e-1"), Ok(("", bits(1.1))));
    assert_eq!(number_bits("123E-02x"), Ok(("x", bits(1.23))));
    assert_eq!(number_bits("7."), Ok(("", bits(7.0))));
    assert_eq!(number_bits("5[2]"), Ok(("[2]", bits(5.0))));
}

#[test]
fn number_bits_errors() {
    assert_eq!(number_bits(""), Err(ParseError::Syntax));
    assert_eq!(number_bits("abc"), Err(ParseError::Syntax));
    assert_eq!(number_bits(":"), Err(ParseError::Syntax));
    assert_eq!(number_bits("-"), Err(ParseError::Syntax));
    assert_eq!(number_bits("1e"), Err(ParseError::MalformedNumber));
    assert_eq!(number_bits("1e+"), Err(ParseError::MalformedNumber));
    assert_eq!(number_bits("2.5E]"), Err(ParseError::MalformedNumber));
}

#[test]
fn spatial_offset_without_end() {
    assert_eq!(
        spatial_offset("@2.5:"),
        Ok(("", SpatialOffset::new(bits(2.5), None, None).to_offset()))
    );
    assert_eq!(
        spatial_offset("@2.5:[8]"),
        Ok((
            "",
            SpatialOffset::new(
                bits(2.5),
                None,
                Some(Assertion::new(None, Some("8".to_string())))
            )
            .to_offset()
        ))
    );
}

#[test]
fn spatial_offset_errors() {
    assert_eq!(spatial_offset("2.5:5.3"), Err(ParseError::Syntax));
    assert_eq!(spatial_offset("@:5.3"), Err(ParseError::Syntax));
    assert_eq!(spatial_offset("@2.5"), Err(ParseError::Syntax));
    assert_eq!(spatial_offset("@2.5;5.3"), Err(ParseError::Syntax));
    assert_eq!(spatial_offset("@1e:5"), Err(ParseError::MalformedNumber));
    assert_eq!(spatial_offset("@1:2e"), Err(ParseError::MalformedNumber));
}

#[test]
fn spatial_offset_from_reads_the_assertion() {
    assert_eq!(
        spatial_offset_from(bits(1.0), Some(bits(2.0)), "[a=b]/2"),
        (
            "/2",
            Offset::Spatial(SpatialOffset::new(
                bits(1.0),
                Some(bits(2.0)),
                Some(Assertion::new(Some(vec![pair("a", "b")]), None))
            ))
        )
    );
    assert_eq!(
        spatial_offset_from(7, None, ")"),
        (")", Offset::Spatial(SpatialOffset::new(7, None, None)))
    );
}

#[test]
fn temporal_offset_with_spatial_range() {
    assert_eq!(
        temporal_offset("~1.5@2:3"),
        Ok((
            "",
            TemporalOffset::new(bits(1.5), Some((bits(2.0), bits(3.0))), None).to_offset()
        ))
    );
}

#[test]
fn temporal_offset_takes_no_half_range() {
    assert_eq!(
        temporal_offset("~1.5@2:"),
        Ok(("@2:", TemporalOffset::new(bits(1.5), None, None).to_offset()))
    );
    assert_eq!(
        temporal_offset("~1.5@2"),
        Ok(("@2", TemporalOffset::new(bits(1.5), None, None).to_offset()))
    );
    assert_eq!(
        temporal_offset("~1.5@"),
        Ok(("@", TemporalOffset::new(bits(1.5), None, None).to_offset()))
    );
}

#[test]
fn temporal_offset_errors() {
    assert_eq!(temporal_offset("3.7"), Err(ParseError::Syntax));
    assert_eq!(temporal_offset("~"), Err(ParseError::Syntax));
    assert_eq!(temporal_offset("~x"), Err(ParseError::Syntax));
    assert_eq!(temporal_offset("~1e"), Err(ParseError::MalformedNumber));
    assert_eq!(temporal_offset("~1@2e:3"), Err(ParseError::MalformedNumber));
    assert_eq!(temporal_offset("~1@2:3e"), Err(ParseError::MalformedNumber));
}

#[test]
fn temporal_offset_from_reads_the_assertion() {
    assert_eq!(
        temporal_offset_from(bits(2.0), Some((bits(0.5), bits(1.5))), "[9]!"),
        (
            "!",
            Offset::Temporal(TemporalOffset::new(
                bits(2.0),
                Some((bits(0.5), bits(1.5))),
                Some(Assertion::new(None, Some("9".to_string())))
            ))
        )
    );
}

#[test]
fn offset_goes_by_the_first_character() {
    assert_eq!(
        offset(":3"),
        Ok(("", Offset::Character(CharacterOffset::new(3, None))))
    );
    assert_eq!(
        offset("@1:2"),
        Ok((
            "",
            Offset::Spatial(SpatialOffset::new(bits(1.0), Some(bits(2.0)), None))
        ))
    );
    assert_eq!(
        offset("~4"),
        Ok(("", Offset::Temporal(TemporalOffset::new(bits(4.0), None, None))))
    );
}

#[test]
fn offset_errors() {
    assert_eq!(offset(""), Err(ParseError::Offset));
    assert_eq!(offset("/6"), Err(ParseError::Offset));
    assert_eq!(offset("10"), Err(ParseError::Offset));
    assert_eq!(offset(":x"), Err(ParseError::Syntax));
    assert_eq!(offset("@x"), Err(ParseError::Syntax));
    assert_eq!(offset("~x"), Err(ParseError::Syntax));
    assert_eq!(offset("~1e"), Err(ParseError::MalformedNumber));
}

#[test]
fn to_offset_wraps_a_copy() {
    let character = CharacterOffset::new(
        5,
        Some(Assertion::new(Some(vec![pair("a", "1"), pair("b", "2")]), None)),
    );
    assert_eq!(character.to_offset(), Offset::Character(character.clone()));
    let spatial = SpatialOffset::new(1, Some(2), Some(Assertion::new(None, Some("3".to_string()))));
    assert_eq!(spatial.to_offset(), Offset::Spatial(spatial.clone()));
    let temporal = TemporalOffset::new(1, Some((2, 3)), None);
    assert_eq!(temporal.to_offset(), Offset::Temporal(temporal.clone()));
}

#[test]
fn local_path_is_not_empty() {
    assert_eq!(local_path(""), Err(ParseError::Syntax));
    assert_eq!(local_path(")"), Err(ParseError::Syntax));
    assert_eq!(local_path("!/4"), Err(ParseError::Syntax));
    assert_eq!(local_path(":x"), Err(ParseError::Syntax));
}

#[test]
fn local_path_without_steps() {
    assert_eq!(
        local_path(":10"),
        Ok((
            "",
            LocalPath::new_with_offset(
                vec![],
                Some(Offset::Character(CharacterOffset::new(10, None)))
            )
        ))
    );
    assert_eq!(
        local_path("!/4/2,"),
        Ok((
            ",",
            LocalPath::new_with_redirected_path(
                vec![],
                RedirectedPath::new(
                    Box::new(None),
                    Box::new(Some(Path::new(Step::new(4, None), plain(&[2]))))
                )
            )
        ))
    );
}

#[test]
fn redirection_into_a_step_with_an_offset() {
    assert_eq!(
        local_path("/4!/6:10"),
        Ok((
            "",
            LocalPath::new_with_redirected_path(
                vec![Step::new(4, None)],
                RedirectedPath::new(
                    Box::new(None),
                    Box::new(Some(Path::new(
                        Step::new(6, None),
                        LocalPath::new_with_offset(
                            vec![],
                            Some(Offset::Character(CharacterOffset::new(10, None)))
                        )
                    )))
                )
            )
        ))
    );
}

#[test]
fn local_path_with_offset() {
    assert_eq!(
        local_path("/4/2:10"),
        Ok((
            "",
            LocalPath::new_with_offset(
                vec![Step::new(4, None), Step::new(2, None)],
                Some(Offset::Character(CharacterOffset::new(10, None)))
            )
        ))
    );
    assert_eq!(
        local_path("/6/1@3.5:7.2,"),
        Ok((
            ",",
            LocalPath::new_with_offset(
                vec![Step::new(6, None), Step::new(1, None)],
                Some(Offset::Spatial(SpatialOffset::new(
                    bits(3.5),
                    Some(bits(7.2)),
                    None
                )))
            )
        ))
    );
}

#[test]
fn local_path_with_redirection_to_an_offset() {
    let (rest, found) = local_path("/4!:15)").unwrap();
    assert_eq!(rest, ")");
    assert_eq!(
        found,
        LocalPath::new_with_redirected_path(
            vec![Step::new(4, None)],
            RedirectedPath::new(
                Box::new(Some(Offset::Character(CharacterOffset::new(15, None)))),
                Box::new(None)
            )
        )
    );
    assert!(found.offset.is_none());
    let redirected = found.redirected_path.unwrap();
    assert_eq!(
        redirected.offset(),
        &Some(Offset::Character(CharacterOffset::new(15, None)))
    );
    assert_eq!(redirected.path(), &None);
}

#[test]
fn local_path_leaves_a_redirection_that_leads_nowhere() {
    assert_eq!(local_path("/4!"), Ok(("!", plain(&[4]))));
    assert_eq!(local_path("/4!/6"), Ok(("!/6", plain(&[4]))));
    assert_eq!(local_path("/4:x"), Ok((":x", plain(&[4]))));
}

#[test]
fn local_path_hands_on_a_malformed_number() {
    assert_eq!(local_path("/4@1:2e"), Err(ParseError::MalformedNumber));
    assert_eq!(local_path("/4~1e"), Err(ParseError::MalformedNumber));
    assert_eq!(local_path("/4!/6/2~1e"), Err(ParseError::MalformedNumber));
}

#[test]
fn redirected_path_errors() {
    assert_eq!(redirected_path("/4/1"), Err(ParseError::Syntax));
    assert_eq!(redirected_path("!"), Err(ParseError::Offset));
    assert_eq!(redirected_path("!/4"), Err(ParseError::Offset));
    assert_eq!(redirected_path("!:x"), Err(ParseError::Syntax));
    assert_eq!(redirected_path("!@1e:2"), Err(ParseError::MalformedNumber));
}

#[test]
fn path_or_offset_gives_exactly_one() {
    let (rest, (found_path, found_offset)) = path_or_offset("/4/1,").unwrap();
    assert_eq!(rest, ",");
    assert_eq!(found_path, Some(Path::new(Step::new(4, None), plain(&[1]))));
    assert_eq!(found_offset, None);
    let (rest, (found_path, found_offset)) = path_or_offset("~2").unwrap();
    assert_eq!(rest, "");
    assert_eq!(found_path, None);
    assert_eq!(
        found_offset,
        Some(Offset::Temporal(TemporalOffset::new(bits(2.0), None, None)))
    );
    assert_eq!(path_or_offset("x"), Err(ParseError::Offset));
}

#[test]
fn path_needs_more_than_one_step() {
    assert_eq!(path("/6"), Err(ParseError::Syntax));
    assert_eq!(path("/6)"), Err(ParseError::Syntax));
    assert_eq!(path(""), Err(ParseError::Syntax));
    assert_eq!(
        path("/6/4"),
        Ok(("", Path::new(Step::new(6, None), plain(&[4]))))
    );
    assert_eq!(
        path("/6:10"),
        Ok((
            "",
            Path::new(
                Step::new(6, None),
                LocalPath::new_with_offset(
                    vec![],
                    Some(Offset::Character(CharacterOffset::new(10, None)))
                )
            )
        ))
    );
}

#[test]
fn nested_redirections() {
    let (rest, found) = path("/2/4!/6/8!/10/12:3").unwrap();
    assert_eq!(rest, "");
    let innermost = Path::new(
        Step::new(10, None),
        LocalPath::new_with_offset(
            vec![Step::new(12, None)],
            Some(Offset::Character(CharacterOffset::new(3, None))),
        ),
    );
    let middle = Path::new(
        Step::new(6, None),
        LocalPath::new_with_redirected_path(
            vec![Step::new(8, None)],
            RedirectedPath::new(Box::new(None), Box::new(Some(innermost))),
        ),
    );
    let outer = Path::new(
        Step::new(2, None),
        LocalPath::new_with_redirected_path(
            vec![Step::new(4, None)],
            RedirectedPath::new(Box::new(None), Box::new(Some(middle))),
        ),
    );
    assert_eq!(found, outer);
}

#[test]
fn range_errors() {
    assert_eq!(range("/6/4,/6/14"), Err(ParseError::Syntax));
    assert_eq!(range(",/6/4"), Err(ParseError::Syntax));
    assert_eq!(range(",/6/4,"), Err(ParseError::Syntax));
    assert_eq!(range(",,/6"), Err(ParseError::Syntax));
    assert_eq!(range(",/6,)"), Err(ParseError::Syntax));
    assert_eq!(range(",/6~1e,/2"), Err(ParseError::MalformedNumber));
}

#[test]
fn range_between_offsets() {
    assert_eq!(
        range(",:5,:7)"),
        Ok((
            ")",
            Range::new(
                LocalPath::new_with_offset(
                    vec![],
                    Some(Offset::Character(CharacterOffset::new(5, None)))
                ),
                LocalPath::new_with_offset(
                    vec![],
                    Some(Offset::Character(CharacterOffset::new(7, None)))
                )
            )
        ))
    );
}

#[test]
fn range_accessors() {
    let (_, found) = range(",/2:1,/4:9").unwrap();
    assert_eq!(
        found.start_point(),
        &LocalPath::new_with_offset(
            vec![Step::new(2, None)],
            Some(Offset::Character(CharacterOffset::new(1, None)))
        )
    );
    assert_eq!(
        found.end_point(),
        &LocalPath::new_with_offset(
            vec![Step::new(4, None)],
            Some(Offset::Character(CharacterOffset::new(9, None)))
        )
    );
}

#[test]
fn fragment_without_closing_parenthesis_fails() {
    assert_eq!(fragment("epubcfi(/6/2"), Err(ParseError::Syntax));
    assert_eq!(fragment("epubcfi(/6/2!/4/1:5"), Err(ParseError::Syntax));
    assert_eq!(parse_fragment("epubcfi(/6/2"), Err(ParseError::Syntax));
}

#[test]
fn fragment_errors() {
    assert_eq!(fragment(""), Err(ParseError::Syntax));
    assert_eq!(fragment("epub(/6/2)"), Err(ParseError::Syntax));
    assert_eq!(fragment("EPUBCFI(/6/2)"), Err(ParseError::Syntax));
    assert_eq!(fragment("epubcfi/6/2)"), Err(ParseError::Syntax));
    assert_eq!(fragment("epubcfi()"), Err(ParseError::Syntax));
    assert_eq!(fragment("epubcfi(/6)"), Err(ParseError::Syntax));
    assert_eq!(fragment("epubcfi(/6/2:x)"), Err(ParseError::Syntax));
    assert_eq!(fragment("epubcfi(/6/2@1:2e)"), Err(ParseError::MalformedNumber));
}

#[test]
fn fragment_leaves_what_follows_the_parenthesis() {
    assert_eq!(
        fragment("epubcfi(/6/2)#x"),
        Ok(("#x", Fragment::new(Path::new(Step::new(6, None), plain(&[2])))))
    );
}

#[test]
fn fragment_with_range() {
    let (rest, found) = fragment("epubcfi(/6/4,/2:1,/4:9)").unwrap();
    assert_eq!(rest, "");
    let (_, expected_range) = range(",/2:1,/4:9").unwrap();
    assert_eq!(
        found,
        Fragment::new_with_range(Path::new(Step::new(6, None), plain(&[4])), expected_range)
    );
    assert_eq!(found.path(), &Path::new(Step::new(6, None), plain(&[4])));
    assert!(found.range().is_some());
    assert_eq!(
        found.range(),
        &Some(Range::new(
            LocalPath::new_with_offset(
                vec![Step::new(2, None)],
                Some(Offset::Character(CharacterOffset::new(1, None)))
            ),
            LocalPath::new_with_offset(
                vec![Step::new(4, None)],
                Some(Offset::Character(CharacterOffset::new(9, None)))
            )
        ))
    );
}

#[test]
fn fragment_without_range_has_none() {
    let (_, found) = fragment("epubcfi(/6/2)").unwrap();
    assert_eq!(found.range(), &None);
    assert_ne!(
        found,
        fragment("epubcfi(/6/2,/2,/4)").unwrap().1
    );
}

#[test]
fn parse_fragment_takes_the_whole_text() {
    assert_eq!(
        parse_fragment("epubcfi(/6/4[id1]/2:10)"),
        Ok(Fragment::new(Path::new(
            Step::new(6, None),
            LocalPath::new_with_offset(
                vec![
                    Step::new(4, Some(Assertion::new(None, Some("id1".to_string())))),
                    Step::new(2, None),
                ],
                Some(Offset::Character(CharacterOffset::new(10, None)))
            )
        )))
    );
    assert_eq!(
        parse_fragment("epubcfi(/6/2)"),
        Ok(Fragment::new(Path::new(Step::new(6, None), plain(&[2]))))
    );
}

#[test]
fn parse_fragment_reads_annotated_paths() {
    assert_eq!(
        parse_fragment("epubcfi(/4[lang=en]/2[role=section]/6/3!/5:10)"),
        Ok(Fragment::new(Path::new(
            Step::new(4, Some(Assertion::new(Some(vec![pair("lang", "en")]), None))),
            LocalPath::new_with_redirected_path(
                vec![
                    Step::new(
                        2,
                        Some(Assertion::new(Some(vec![pair("role", "section")]), None))
                    ),
                    Step::new(6, None),
                    Step::new(3, None),
                ],
                RedirectedPath::new(
                    Box::new(None),
                    Box::new(Some(Path::new(
                        Step::new(5, None),
                        LocalPath::new_with_offset(
                            vec![],
                            Some(Offset::Character(CharacterOffset::new(10, None)))
                        )
                    )))
                )
            )
        )))
    );
    assert_eq!(
        parse_fragment("epubcfi(/2/4/8[role=note]@3.5:7.2)"),
        Ok(Fragment::new(Path::new(
            Step::new(2, None),
            LocalPath::new_with_offset(
                vec![
                    Step::new(4, None),
                    Step::new(
                        8,
                        Some(Assertion::new(Some(vec![pair("role", "note")]), None))
                    ),
                ],
                Some(Offset::Spatial(SpatialOffset::new(
                    bits(3.5),
                    Some(bits(7.2)),
                    None
                )))
            )
        )))
    );
}

#[test]
fn parse_fragment_rejects_trailing_characters() {
    assert_eq!(
        parse_fragment("epubcfi(/6/2)x"),
        Err(ParseError::IncompleteInput)
    );
    assert_eq!(
        parse_fragment("epubcfi(/6/2))"),
        Err(ParseError::IncompleteInput)
    );
    assert_eq!(
        parse_fragment("epubcfi(/6/2) "),
        Err(ParseError::IncompleteInput)
    );
}

#[test]
fn error_recoverability() {
    assert!(ParseError::Syntax.is_recoverable());
    assert!(ParseError::Assertion.is_recoverable());
    assert!(ParseError::Offset.is_recoverable());
    assert!(ParseError::IncompleteInput.is_recoverable());
    assert!(!ParseError::MalformedNumber.is_recoverable());
}
