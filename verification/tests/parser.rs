use transcript::{Notice, ParseError, Speaker, Transcript};

fn expect_ok(input: &str) -> Transcript {
    let out = Transcript::parse(input);
    match out.result {
        Ok(t) => t,
        Err(e) => panic!("expected a successful parse, got {:?}", e),
    }
}

fn expect_err(input: &str) -> ParseError {
    let out = Transcript::parse(input);
    match out.result {
        Ok(_) => panic!("expected a failure"),
        Err(e) => e,
    }
}

#[test]
fn three_panel_scenario() {
    let input = "Garfildo:\nI hate Mondays~\n---\n[sono]\nThud\n---\n~Nermalo:\nHi";
    let t = expect_ok(input);
    let panels = t.panels();
    assert_eq!(panels.len(), 3);

    assert_eq!(panels[0].lines.len(), 1);
    match &panels[0].lines[0].speaker {
        Speaker::Character { name, uncommon } => {
            assert_eq!(name.as_str(), "garfildo");
            assert!(!uncommon);
        }
        other => panic!("expected a character, got {:?}", other),
    }
    assert_eq!(panels[0].lines[0].text, "I hate Mondays\u{266B}");

    assert_eq!(panels[1].lines.len(), 1);
    assert!(matches!(panels[1].lines[0].speaker, Speaker::Sound));
    assert_eq!(panels[1].lines[0].text, "Thud");

    assert_eq!(panels[2].lines.len(), 1);
    match &panels[2].lines[0].speaker {
        Speaker::Character { name, uncommon } => {
            assert_eq!(name.as_str(), "nermalo");
            assert!(uncommon);
        }
        other => panic!("expected a character, got {:?}", other),
    }
    assert_eq!(panels[2].lines[0].text, "Hi");
}

#[test]
fn dangling_speaker_single_marker() {
    let e = expect_err("Garfildo:");
    assert_eq!(e, ParseError::DanglingSpeaker("Garfildo:".to_string()));
}

#[test]
fn dangling_speaker_inside_panel() {
    let e = expect_err("Jono:\nsaluton\nLizo:");
    assert_eq!(e, ParseError::DanglingSpeaker("Lizo:".to_string()));
}

#[test]
fn empty_input() {
    let e = expect_err("");
    assert_eq!(e, ParseError::EmptyInput);
}

#[test]
fn all_blank_input() {
    let e = expect_err("   \n\t\n  \r\n");
    assert_eq!(e, ParseError::EmptyInput);
}

#[test]
fn one_panel_is_rejected() {
    let e = expect_err("Jono:\nsaluton");
    assert_eq!(e, ParseError::InvalidPanelCount(1));
}

#[test]
fn two_panels_are_rejected() {
    let e = expect_err("Jono:\nsaluton\n---\nLizo:\nhej");
    assert_eq!(e, ParseError::InvalidPanelCount(2));
}

#[test]
fn four_panels_are_rejected() {
    let e = expect_err("[sono]\na\n---\n[sono]\nb\n---\n[sono]\nc\n---\n[sono]\nd");
    assert_eq!(e, ParseError::InvalidPanelCount(4));
}

#[test]
fn seven_panel_sunday_strip() {
    let mut input = String::new();
    for i in 0..7 {
        if i > 0 {
            input.push_str("---\n");
        }
        input.push_str("[sono]\nbang\n");
    }
    let t = expect_ok(&input);
    assert!(matches!(t, Transcript::Sunday(_)));
    assert_eq!(t.panels().len(), 7);
}

#[test]
fn empty_panels_are_valid() {
    let t = expect_ok("Jono:\nsaluton\n---\n---");
    let panels = t.panels();
    assert_eq!(panels.len(), 3);
    assert_eq!(panels[0].lines.len(), 1);
    assert_eq!(panels[1].lines.len(), 0);
    assert_eq!(panels[2].lines.len(), 0);
}

#[test]
fn invalid_speaker_line() {
    let e = expect_err("Garfildo\nhi\n---\n---");
    assert_eq!(e, ParseError::InvalidSpeaker("Garfildo".to_string()));
}

#[test]
fn keywords_fold_case() {
    let t = expect_ok("[SONO]\nThud\n---\n[Skribo]\nLater...\n---\n[sKrIbO]\nThe end");
    let panels = t.panels();
    assert!(matches!(panels[0].lines[0].speaker, Speaker::Sound));
    assert!(matches!(panels[1].lines[0].speaker, Speaker::Text));
    assert!(matches!(panels[2].lines[0].speaker, Speaker::Text));
}

#[test]
fn marker_names_fold_case() {
    let t = expect_ok("GARFILDO:\nhi\n---\n~NERMALO:\nho\n---");
    let names = t.names();
    assert_eq!(
        names,
        vec![("garfildo".to_string(), false), ("nermalo".to_string(), true)]
    );
}

#[test]
fn missing_speaker_name() {
    let e = expect_err(":\nhi\n---\n---");
    assert_eq!(e, ParseError::MissingSpeakerName(":".to_string()));
    let e = expect_err("~:\nhi\n---\n---");
    assert_eq!(e, ParseError::MissingSpeakerName("~:".to_string()));
}

#[test]
fn tilde_replaced_in_text() {
    let t = expect_ok("Jono:\n~la la~ la~\n---\n---");
    assert_eq!(
        t.panels()[0].lines[0].text,
        "\u{266B}la la\u{266B} la\u{266B}"
    );
}

#[test]
fn format_text_normalization() {
    let plain: Vec<char> = "no tildes here".chars().collect();
    let once = transcript::format_transcript_text(&plain);
    assert_eq!(once, plain);

    let sung: Vec<char> = "a~b~".chars().collect();
    let once = transcript::format_transcript_text(&sung);
    let expect: Vec<char> = "a\u{266B}b\u{266B}".chars().collect();
    assert_eq!(once, expect);

    let twice = transcript::format_transcript_text(&once);
    assert_eq!(twice, expect);
}

#[test]
fn names_keep_order_and_duplicates() {
    let input = "Garfildo:\na\nJono:\nb\n---\nGarfildo:\nc\n[sono]\nboom\n---\n[skribo]\nfino";
    let t = expect_ok(input);
    let names = t.names();
    assert_eq!(
        names,
        vec![
            ("garfildo".to_string(), false),
            ("jono".to_string(), false),
            ("garfildo".to_string(), false),
        ]
    );
}

#[test]
fn character_accessor() {
    let sp = Speaker::Character {
        name: "lizo".to_string(),
        uncommon: false,
    };
    assert_eq!(sp.character(), Some(("lizo", false)));
    assert_eq!(Speaker::Sound.character(), None);
    assert_eq!(Speaker::Text.character(), None);
}

#[test]
fn notice_for_common_name_marked_uncommon() {
    let out = Transcript::parse("~Garfildo:\nhi\n---\n---");
    assert!(out.result.is_ok());
    assert_eq!(
        out.notices,
        vec![Notice::UncommonMarkOnCommonName {
            name: "garfildo".to_string()
        }]
    );
}

#[test]
fn notice_for_unknown_name_without_mark() {
    let out = Transcript::parse("Zeko:\nhi\n---\n---");
    assert!(out.result.is_ok());
    assert_eq!(
        out.notices,
        vec![Notice::MissingUncommonMark {
            name: "zeko".to_string()
        }]
    );
}

#[test]
fn no_notice_for_expected_markers() {
    let out = Transcript::parse("Jono:\nhi\n---\n~Zeko:\nho\n---");
    assert!(out.result.is_ok());
    assert!(out.notices.is_empty());
}

#[test]
fn notices_survive_a_failing_parse() {
    let out = Transcript::parse("Zeko:\nhi\n---\nLizo:");
    match out.result {
        Err(ParseError::DanglingSpeaker(l)) => assert_eq!(l, "Lizo:"),
        other => panic!("expected a dangling speaker, got {:?}", other),
    }
    assert_eq!(
        out.notices,
        vec![Notice::MissingUncommonMark {
            name: "zeko".to_string()
        }]
    );
}

#[test]
fn separator_needs_exact_match() {
    let e = expect_err("----\nhi\n---\n---\n---");
    assert_eq!(e, ParseError::InvalidSpeaker("----".to_string()));
}

#[test]
fn blank_lines_are_ignored_everywhere() {
    let t = expect_ok("\n  Jono:  \n\n  saluton  \n\n---\n\n---\n");
    let panels = t.panels();
    assert_eq!(panels.len(), 3);
    assert_eq!(panels[0].lines.len(), 1);
    assert_eq!(panels[0].lines[0].text, "saluton");
}
#[test]
fn keyword_from_folded_exact() {
    let sono: Vec<char> = "[sono]".chars().collect();
    let skribo: Vec<char> = "[skribo]".chars().collect();
    let other: Vec<char> = "[sonx]".chars().collect();
    assert!(matches!(
        transcript::keyword_from_folded(&sono),
        Some(Speaker::Sound)
    ));
    assert!(matches!(
        transcript::keyword_from_folded(&skribo),
        Some(Speaker::Text)
    ));
    assert!(transcript::keyword_from_folded(&other).is_none());
}

#[test]
fn character_from_folded_exact() {
    let plain: Vec<char> = "lizo".chars().collect();
    match transcript::character_from_folded(&plain) {
        Some(Speaker::Character { name, uncommon }) => {
            assert_eq!(name, "lizo");
            assert!(!uncommon);
        }
        other => panic!("expected a character, got {:?}", other),
    }

    let marked: Vec<char> = "~zeko".chars().collect();
    match transcript::character_from_folded(&marked) {
        Some(Speaker::Character { name, uncommon }) => {
            assert_eq!(name, "zeko");
            assert!(uncommon);
        }
        other => panic!("expected a character, got {:?}", other),
    }

    let lone_tilde: Vec<char> = "~".chars().collect();
    assert!(transcript::character_from_folded(&lone_tilde).is_none());
    let empty: Vec<char> = Vec::new();
    assert!(transcript::character_from_folded(&empty).is_none());
}

#[test]
fn classify_marker_lines() {
    let marker: Vec<char> = "GARFILDO:".chars().collect();
    match transcript::classify(&marker) {
        Ok(Speaker::Character { name, uncommon }) => {
            assert_eq!(name, "garfildo");
            assert!(!uncommon);
        }
        other => panic!("expected a character, got {:?}", other),
    }
    let bad: Vec<char> = "boom".chars().collect();
    match transcript::classify(&bad) {
        Err(ParseError::InvalidSpeaker(l)) => assert_eq!(l, "boom"),
        other => panic!("expected an invalid speaker, got {:?}", other),
    }
}

#[test]
fn common_name_membership() {
    let garfildo: Vec<char> = "garfildo".chars().collect();
    let zeko: Vec<char> = "zeko".chars().collect();
    let upper: Vec<char> = "GARFILDO".chars().collect();
    assert!(transcript::is_common(&garfildo));
    assert!(!transcript::is_common(&zeko));
    assert!(!transcript::is_common(&upper));
}
