use summary_doc::assemble::build_doc;
use summary_doc::date::Date;
use summary_doc::daterange::today;
use summary_doc::doccer::render_channel_section;
use summary_doc::doccer::Doc;
use summary_doc::doccer::RenderAction;
use summary_doc::doccer::RenderEvent;
use summary_doc::doccer::Renderer;
use summary_doc::model::Container;
use summary_doc::model::ContainerKind;
use summary_doc::model::Namespace;
use summary_doc::model::Pin;

fn d(year: i32, month: u8, day: u8) -> Date {
    Date { year, month, day }
}

fn chan(id: u64, name: &str) -> Container {
    Container {
        id,
        guild_id: 7,
        name: String::from(name),
        kind: ContainerKind::Channel,
        parent_id: None,
    }
}

fn cat(id: u64, name: &str) -> Container {
    Container {
        id,
        guild_id: 7,
        name: String::from(name),
        kind: ContainerKind::Category,
        parent_id: None,
    }
}

fn pin(date: Date, content: &str, link: &str) -> Pin {
    Pin { date, content: String::from(content), link: String::from(link) }
}

const TITLE: &str = "Important Messages: Jan 1st - Dec 31st";

fn header() -> String {
    format!("{}\n{}", TITLE, "=".repeat(TITLE.len()))
}

fn year_doc() -> Doc {
    Doc::new(d(2024, 1, 1), d(2024, 12, 31))
}

const TODAY: Date = Date { year: 2024, month: 6, day: 15 };

#[test]
fn channel_section_renders_messages_in_range_in_order() {
    let c = chan(5, "general");
    let pins = vec![
        pin(d(2024, 3, 5), "hello", "http://x"),
        pin(d(2023, 1, 1), "old", "http://y"),
        pin(d(2024, 12, 30), "late", "http://z"),
    ];
    let r = render_channel_section(&c, &pins, &d(2024, 1, 1), &d(2024, 12, 31), false);
    assert_eq!(
        r,
        "## general\n* hello ([source](http://x))\n* late ([source](http://z))\n"
    );
}

#[test]
fn interval_is_inclusive_start_exclusive_end() {
    let c = chan(5, "general");
    let pins = vec![
        pin(d(2024, 1, 1), "first", "a"),
        pin(d(2024, 12, 31), "cut", "b"),
    ];
    let r = render_channel_section(&c, &pins, &d(2024, 1, 1), &d(2024, 12, 31), false);
    assert_eq!(r, "## general\n* first ([source](a))\n");
}

#[test]
fn empty_channel_direct_renders_placeholder() {
    let c = chan(5, "general");
    let r = render_channel_section(&c, &vec![], &d(2024, 1, 1), &d(2024, 12, 31), false);
    assert_eq!(
        r,
        "## general\nNothing interesting, but check the channel for [more discussions](https://discord.com/channels/7/5)\n"
    );
}

#[test]
fn empty_channel_as_category_child_renders_nothing() {
    let c = chan(5, "general");
    let out_of_range = vec![pin(d(2023, 1, 1), "old", "a")];
    let r = render_channel_section(&c, &out_of_range, &d(2024, 1, 1), &d(2024, 12, 31), true);
    assert_eq!(r, "");
}

#[test]
fn machine_renders_single_channel_report() {
    let mut doc = year_doc();
    doc.add_channel(chan(5, "general"));
    let mut rend = Renderer::new(doc, TODAY);
    let a = rend.step(RenderEvent::Begin);
    assert!(matches!(a, RenderAction::FetchPins(5)));
    let a = rend.step(RenderEvent::Pins(vec![
        pin(d(2024, 3, 5), "hello", "http://x"),
        pin(d(2023, 1, 1), "old", "http://y"),
    ]));
    match a {
        RenderAction::Finished(s) => assert_eq!(
            s,
            format!("{}\n## general\n* hello ([source](http://x))\n", header())
        ),
        _ => panic!("expected a finished report"),
    }
}

#[test]
fn machine_renders_empty_report_without_sections() {
    let doc = year_doc();
    let mut rend = Renderer::new(doc, TODAY);
    match rend.step(RenderEvent::Begin) {
        RenderAction::Finished(s) => assert_eq!(s, header()),
        _ => panic!("expected a finished report"),
    }
}

#[test]
fn category_child_with_nothing_in_range_is_omitted_and_placeholder_appears() {
    let mut doc = year_doc();
    doc.add_channel(cat(2, "stuff"));
    let mut rend = Renderer::new(doc, TODAY);
    assert!(matches!(rend.step(RenderEvent::Begin), RenderAction::FetchChannels(7)));
    let mut child = chan(5, "general");
    child.parent_id = Some(2);
    let unrelated = chan(6, "elsewhere");
    let a = rend.step(RenderEvent::Channels(vec![child, unrelated]));
    assert!(matches!(a, RenderAction::FetchPins(5)));
    match rend.step(RenderEvent::Pins(vec![pin(d(2023, 1, 1), "old", "a")])) {
        RenderAction::Finished(s) => assert_eq!(
            s,
            format!(
                "{}\n## stuff\nNothing interesting, but check the channel for [more discussions](https://discord.com/channels/7/2)",
                header()
            )
        ),
        _ => panic!("expected a finished report"),
    }
}

#[test]
fn category_rolls_up_nonempty_children_as_subsections() {
    let mut doc = year_doc();
    doc.add_channel(cat(2, "stuff"));
    let mut rend = Renderer::new(doc, TODAY);
    assert!(matches!(rend.step(RenderEvent::Begin), RenderAction::FetchChannels(7)));
    let mut c1 = chan(5, "dev");
    c1.parent_id = Some(2);
    let mut c2 = chan(6, "ops");
    c2.parent_id = Some(2);
    let a = rend.step(RenderEvent::Channels(vec![c1, c2]));
    assert!(matches!(a, RenderAction::FetchPins(5)));
    let a = rend.step(RenderEvent::Pins(vec![pin(d(2024, 2, 2), "hi", "L")]));
    assert!(matches!(a, RenderAction::FetchPins(6)));
    match rend.step(RenderEvent::Pins(vec![])) {
        RenderAction::Finished(s) => assert_eq!(
            s,
            format!("{}\n## stuff\n### dev\n* hi ([source](L))\n", header())
        ),
        _ => panic!("expected a finished report"),
    }
}

#[test]
fn sections_are_joined_in_argument_order() {
    let mut doc = year_doc();
    doc.add_channel(chan(5, "alpha"));
    doc.add_channel(chan(6, "beta"));
    let mut rend = Renderer::new(doc, TODAY);
    assert!(matches!(rend.step(RenderEvent::Begin), RenderAction::FetchPins(5)));
    let a = rend.step(RenderEvent::Pins(vec![pin(d(2024, 2, 2), "x", "l")]));
    assert!(matches!(a, RenderAction::FetchPins(6)));
    match rend.step(RenderEvent::Pins(vec![])) {
        RenderAction::Finished(s) => assert_eq!(
            s,
            format!(
                "{}\n## alpha\n* x ([source](l))\n\n## beta\nNothing interesting, but check the channel for [more discussions](https://discord.com/channels/7/6)\n",
                header()
            )
        ),
        _ => panic!("expected a finished report"),
    }
}

#[test]
fn fetch_failure_fails_whole_render_even_after_successful_siblings() {
    let mut doc = year_doc();
    doc.add_channel(chan(5, "general"));
    doc.add_channel(cat(2, "stuff"));
    let mut rend = Renderer::new(doc, TODAY);
    assert!(matches!(rend.step(RenderEvent::Begin), RenderAction::FetchPins(5)));
    let a = rend.step(RenderEvent::Pins(vec![pin(d(2024, 2, 2), "ok", "L")]));
    assert!(matches!(a, RenderAction::FetchChannels(7)));
    assert!(matches!(rend.step(RenderEvent::FetchFailed), RenderAction::Failed));
    // The machine stays dead: nothing partial can be coaxed out afterwards.
    assert!(matches!(rend.step(RenderEvent::Begin), RenderAction::Failed));
}

#[test]
fn pinned_fetch_failure_fails_the_render() {
    let mut doc = year_doc();
    doc.add_channel(chan(5, "general"));
    let mut rend = Renderer::new(doc, TODAY);
    assert!(matches!(rend.step(RenderEvent::Begin), RenderAction::FetchPins(5)));
    assert!(matches!(rend.step(RenderEvent::FetchFailed), RenderAction::Failed));
}

#[test]
fn build_doc_resolves_references_after_consumed_dates() {
    let g = Namespace { guild_id: 7, containers: vec![chan(5, "general")] };
    let t = today();
    // The first token parsed as a date, the second did not: exactly one token
    // is consumed and the second is read again as a reference.
    let doc = build_doc(
        Some(d(2021, 6, 1)),
        None,
        &vec![String::from("6/1/2021"), String::from("general")],
        &g,
        t,
    )
    .unwrap();
    assert_eq!(doc.start_date, d(2021, 6, 1));
    assert_eq!(doc.end_date, t);
    assert_eq!(doc.sections.len(), 1);
}

#[test]
fn build_doc_consumes_both_parsed_dates() {
    let g = Namespace { guild_id: 7, containers: vec![chan(5, "general")] };
    let doc = build_doc(
        Some(d(2021, 6, 1)),
        Some(d(2021, 8, 1)),
        &vec![String::from("6/1/2021"), String::from("8/1/2021"), String::from("general")],
        &g,
        today(),
    )
    .unwrap();
    assert_eq!(doc.start_date, d(2021, 6, 1));
    assert_eq!(doc.end_date, d(2021, 8, 1));
    assert_eq!(doc.sections.len(), 1);
}

#[test]
fn build_doc_reports_first_invalid_reference() {
    let g = Namespace { guild_id: 7, containers: vec![chan(5, "general")] };
    let r = build_doc(
        None,
        None,
        &vec![String::from("general"), String::from("nosuch")],
        &g,
        today(),
    );
    assert_eq!(r.unwrap_err(), "nosuch");
}

#[test]
fn build_doc_without_dates_covers_everything_up_to_today() {
    let g = Namespace { guild_id: 7, containers: vec![chan(5, "general")] };
    let t = today();
    let doc = build_doc(None, None, &vec![String::from("<#5>")], &g, t).unwrap();
    assert_eq!(doc.start_date, Date::beginning_of_time());
    assert_eq!(doc.end_date, t);
    assert_eq!(doc.sections.len(), 1);
}
