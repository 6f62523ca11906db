use summary_doc::matching::parse_channel;
use summary_doc::model::Container;
use summary_doc::model::ContainerKind;
use summary_doc::model::Namespace;

fn cont(id: u64, name: &str, kind: ContainerKind, parent: Option<u64>) -> Container {
    Container { id, guild_id: 7, name: String::from(name), kind, parent_id: parent }
}

fn ns(containers: Vec<Container>) -> Namespace {
    Namespace { guild_id: 7, containers }
}

#[test]
fn hard_channel_match_beats_soft_category_match() {
    let g = ns(vec![
        cont(1, "general", ContainerKind::Channel, Some(2)),
        cont(2, "general-stuff", ContainerKind::Category, None),
    ]);
    let r = parse_channel(&g, &String::from("general")).unwrap();
    assert_eq!(r.id, 1);
}

#[test]
fn equal_strength_soft_matches_are_ambiguous() {
    let g = ns(vec![
        cont(1, "dev-chat", ContainerKind::Channel, None),
        cont(2, "dev-ops", ContainerKind::Channel, None),
    ]);
    assert!(parse_channel(&g, &String::from("dev")).is_none());
}

#[test]
fn category_lane_resolves_to_the_category_itself() {
    let g = ns(vec![
        cont(1, "alpha", ContainerKind::Channel, Some(2)),
        cont(2, "news", ContainerKind::Category, None),
    ]);
    let r = parse_channel(&g, &String::from("news")).unwrap();
    assert_eq!(r.id, 2);
    assert_eq!(r.kind, ContainerKind::Category);
}

#[test]
fn matching_is_case_insensitive() {
    let g = ns(vec![cont(1, "General", ContainerKind::Channel, None)]);
    let r = parse_channel(&g, &String::from("GENERAL")).unwrap();
    assert_eq!(r.id, 1);
}

#[test]
fn soft_substring_match_resolves_when_unique() {
    let g = ns(vec![
        cont(1, "dev-chat", ContainerKind::Channel, None),
        cont(2, "support", ContainerKind::Channel, None),
    ]);
    let r = parse_channel(&g, &String::from("chat")).unwrap();
    assert_eq!(r.id, 1);
}

#[test]
fn later_hard_match_overcomes_earlier_soft_ambiguity() {
    let g = ns(vec![
        cont(1, "dev-chat", ContainerKind::Channel, None),
        cont(2, "dev-ops", ContainerKind::Channel, None),
        cont(3, "dev", ContainerKind::Channel, None),
    ]);
    let r = parse_channel(&g, &String::from("dev")).unwrap();
    assert_eq!(r.id, 3);
}

#[test]
fn other_kind_containers_do_not_match() {
    let g = ns(vec![
        cont(1, "voice-dev", ContainerKind::Other, None),
        cont(2, "support", ContainerKind::Channel, None),
    ]);
    assert!(parse_channel(&g, &String::from("dev")).is_none());
}

#[test]
fn mention_forms_resolve_by_identifier() {
    let g = ns(vec![
        cont(5, "general", ContainerKind::Channel, None),
        cont(6, "stuff", ContainerKind::Category, None),
    ]);
    assert_eq!(parse_channel(&g, &String::from("<#5>")).unwrap().id, 5);
    assert_eq!(parse_channel(&g, &String::from("5")).unwrap().id, 5);
    assert_eq!(parse_channel(&g, &String::from("<#5")).unwrap().id, 5);
    assert_eq!(parse_channel(&g, &String::from("5>")).unwrap().id, 5);
    assert_eq!(parse_channel(&g, &String::from("<#6>")).unwrap().id, 6);
}

#[test]
fn mention_outside_namespace_is_rejected() {
    let g = ns(vec![cont(5, "general", ContainerKind::Channel, None)]);
    assert!(parse_channel(&g, &String::from("<#99>")).is_none());
}

#[test]
fn mention_of_unsupported_kind_is_rejected() {
    let g = ns(vec![cont(9, "lounge", ContainerKind::Other, None)]);
    assert!(parse_channel(&g, &String::from("<#9>")).is_none());
}

#[test]
fn mention_with_no_fuzzy_fallback() {
    // "9" is a valid mention form, so the fuzzy scan never runs, even though
    // a channel named "9" exists under another identifier.
    let g = ns(vec![cont(5, "9", ContainerKind::Channel, None)]);
    assert!(parse_channel(&g, &String::from("9")).is_none());
}

#[test]
fn overflowing_mention_reads_as_id_zero() {
    let g = ns(vec![cont(5, "general", ContainerKind::Channel, None)]);
    assert!(parse_channel(&g, &String::from("99999999999999999999999")).is_none());
    let g0 = ns(vec![cont(0, "zeroth", ContainerKind::Channel, None)]);
    assert_eq!(parse_channel(&g0, &String::from("99999999999999999999999")).unwrap().id, 0);
}

#[test]
fn empty_token_is_ambiguous_in_a_populated_namespace() {
    let g = ns(vec![
        cont(1, "a", ContainerKind::Channel, None),
        cont(2, "b", ContainerKind::Channel, None),
    ]);
    assert!(parse_channel(&g, &String::from("")).is_none());
}

#[test]
fn category_counted_once_despite_many_children() {
    // Two children share one parent category; the category lane still holds a
    // concrete identifier because the category is memoized, not re-folded.
    let g = ns(vec![
        cont(1, "alpha", ContainerKind::Channel, Some(3)),
        cont(2, "beta", ContainerKind::Channel, Some(3)),
        cont(3, "news", ContainerKind::Category, None),
    ]);
    let r = parse_channel(&g, &String::from("news")).unwrap();
    assert_eq!(r.id, 3);
}
