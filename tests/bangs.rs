use ranking_core::bangs::{parse, Bang, BangHit, Bangs, Term};

fn opt_str(v: &serde_json::Value, key: &str) -> Option<String> {
    v.get(key).and_then(|x| x.as_str()).map(|x| x.to_string())
}

fn bangs_from_json(json: &str) -> Bangs {
    let values: Vec<serde_json::Value> = serde_json::from_str(json).unwrap();
    let records = values
        .iter()
        .map(|v| Bang {
            category: opt_str(v, "c"),
            sub_category: opt_str(v, "sc"),
            domain: opt_str(v, "d"),
            ranking: v.get("r").and_then(|x| x.as_u64()).map(|x| x as usize),
            site: opt_str(v, "s"),
            tag: opt_str(v, "t").unwrap(),
            url: opt_str(v, "u").unwrap(),
        })
        .collect();
    Bangs::from_bangs(records)
}

fn bang(tag: &str, url: &str) -> Bang {
    Bang {
        category: None,
        sub_category: None,
        domain: None,
        ranking: None,
        site: None,
        tag: tag.to_string(),
        url: url.to_string(),
    }
}

#[test]
fn simple_bang() {
    let bangs = bangs_from_json(
        r#"[{
        "c": "Multimedia",
        "d": "www.youtube.com",
        "r": 1646,
        "s": "Youtube",
        "sc": "Video",
        "t": "ty",
        "u": "https://www.youtube.com/results?search_query={{{s}}}"
    }]"#,
    );

    assert_eq!(bangs.get(&parse("no bangs")), None);
    assert_eq!(bangs.get(&parse("!no bangs")), None);

    assert_eq!(
        bangs.get(&parse("!ty bangs")),
        Some(BangHit {
            bang: Bang {
                category: Some("Multimedia".to_string()),
                sub_category: Some("Video".to_string()),
                domain: Some("www.youtube.com".to_string()),
                ranking: Some(1646),
                site: Some("Youtube".to_string()),
                tag: "ty".to_string(),
                url: "https://www.youtube.com/results?search_query={{{s}}}".to_string()
            },
            redirect_to: "https://www.youtube.com/results?search_query=bangs"
                .to_string()
                .into()
        })
    );
}

#[test]
fn unknown_bang_before_known_one_stays_in_query() {
    let bangs = Bangs::from_bangs(vec![bang(
        "ty",
        "https://www.youtube.com/results?search_query={{{s}}}",
    )]);
    let hit = bangs.get(&parse("!ty !foo bangs")).unwrap();
    assert_eq!(
        hit.redirect_to,
        "https://www.youtube.com/results?search_query=!foo bangs"
    );
}

#[test]
fn query_without_bangs_has_no_hit() {
    let bangs = Bangs::from_bangs(vec![bang("xx", "https://e.com/?q={{{s}}}")]);
    assert_eq!(bangs.get(&parse("foo bar")), None);
    assert_eq!(bangs.get(&parse("!yy foo")), None);
    assert_eq!(bangs.get(&parse("")), None);
}

#[test]
fn unknown_tag_has_no_hit() {
    let bangs = Bangs::from_bangs(vec![bang("ty", "https://e.com/?q={{{s}}}")]);
    assert_eq!(bangs.get(&parse("!xx foo")), None);
}

#[test]
fn placeholder_takes_remaining_terms() {
    let bangs = Bangs::from_bangs(vec![bang("xx", "https://e.com/?q={{{s}}}")]);
    let hit = bangs.get(&parse("!xx a b")).unwrap();
    assert_eq!(hit.redirect_to, "https://e.com/?q=a b");
    assert_eq!(hit.bang, bang("xx", "https://e.com/?q={{{s}}}"));
}

#[test]
fn first_known_bang_wins() {
    let bangs = Bangs::from_bangs(vec![
        bang("aa", "https://a.com/{{{s}}}"),
        bang("bb", "https://b.com/{{{s}}}"),
    ]);
    let hit = bangs.get(&parse("x !bb y !aa")).unwrap();
    assert_eq!(hit.bang.tag, "bb");
    assert_eq!(hit.redirect_to, "https://b.com/x y !aa");
}

#[test]
fn last_record_with_a_tag_wins() {
    let bangs = Bangs::from_bangs(vec![
        bang("t", "https://old.com/{{{s}}}"),
        bang("t", "https://new.com/{{{s}}}"),
    ]);
    let hit = bangs.get(&parse("!t q")).unwrap();
    assert_eq!(hit.redirect_to, "https://new.com/q");
}

#[test]
fn every_placeholder_is_replaced() {
    let bangs = Bangs::from_bangs(vec![bang("d", "https://{{{s}}}.com/?q={{{s}}}")]);
    let hit = bangs.get(&parse("rust !d")).unwrap();
    assert_eq!(hit.redirect_to, "https://rust.com/?q=rust");
}

#[test]
fn template_without_placeholder_is_kept() {
    let bangs = Bangs::from_bangs(vec![bang("h", "https://home.com/")]);
    let hit = bangs.get(&parse("!h anything")).unwrap();
    assert_eq!(hit.redirect_to, "https://home.com/");
}

#[test]
fn only_chosen_bang_term_is_dropped() {
    let bangs = Bangs::from_bangs(vec![bang("g", "https://g.com/?q={{{s}}}")]);
    let hit = bangs.get(&parse("!g a !g b")).unwrap();
    assert_eq!(hit.redirect_to, "https://g.com/?q=a !g b");
}

#[test]
fn parse_splits_on_spaces() {
    assert_eq!(
        parse("  !ty  bangs ! x"),
        vec![
            Term::PossibleBang("ty".to_string()),
            Term::Word("bangs".to_string()),
            Term::Word("!".to_string()),
            Term::Word("x".to_string()),
        ]
    );
    assert_eq!(parse("   "), Vec::<Term>::new());
}

#[test]
fn surface_keeps_bang_prefix() {
    assert_eq!(Term::PossibleBang("ty".to_string()).surface(), "!ty");
    assert_eq!(Term::Word("rust".to_string()).surface(), "rust");
}

#[test]
fn word_starting_like_tag_is_not_a_bang() {
    let bangs = Bangs::from_bangs(vec![bang("ty", "https://e.com/?q={{{s}}}")]);
    assert_eq!(bangs.get(&parse("ty foo")), None);
}
