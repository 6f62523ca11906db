use vstd::prelude::*;
use crate::date::Date;
use crate::datefmt::spec_dec;
use crate::datefmt::spec_render_date_range;
use crate::datefmt::append_dec;
use crate::datefmt::render_date_range;
use crate::model::Container;
use crate::model::ContainerKind;
use crate::model::ContainerV;
use crate::model::Pin;
use crate::model::PinV;

verus! {

// ---------------------------------------------------------------------------
// The document tree.
// ---------------------------------------------------------------------------

/// One top-level section of the report: a single channel, or a category whose
/// channels are discovered while rendering.
#[derive(Debug)]
pub enum Section {
    Channel(Container),
    Category(Container),
}

#[verifier::ext_equal]
pub enum SectionV {
    Channel(ContainerV),
    Category(ContainerV),
}

impl View for Section {
    type V = SectionV;

    open spec fn view(&self) -> SectionV {
        match self {
            Section::Channel(c) => SectionV::Channel(c@),
            Section::Category(c) => SectionV::Category(c@),
        }
    }
}

/// The report under construction: the resolved interval and the ordered
/// top-level sections, one per successfully resolved reference.
#[derive(Debug)]
pub struct Doc {
    pub start_date: Date,
    pub end_date: Date,
    pub sections: Vec<Section>,
}

#[verifier::ext_equal]
pub struct DocV {
    pub start_date: Date,
    pub end_date: Date,
    pub sections: Seq<SectionV>,
}

impl View for Doc {
    type V = DocV;

    open spec fn view(&self) -> DocV {
        DocV {
            start_date: self.start_date,
            end_date: self.end_date,
            sections: self.sections@.map_values(|s: Section| s@),
        }
    }
}

impl Doc {
    pub fn new(start_date: Date, end_date: Date) -> (d: Doc)
        ensures
            d@.start_date == start_date,
            d@.end_date == end_date,
            d@.sections =~= Seq::<SectionV>::empty(),
    {
        Doc { start_date, end_date, sections: Vec::new() }
    }

    /// Adds one resolved container as a top-level section: channels and
    /// categories each under their own section kind, anything else silently
    /// dropped.
    pub fn add_channel(&mut self, channel: Container)
        ensures
            final(self)@.start_date == old(self)@.start_date,
            final(self)@.end_date == old(self)@.end_date,
            channel@.kind is Channel ==> final(self)@.sections == old(self)@.sections.push(
                SectionV::Channel(channel@),
            ),
            channel@.kind is Category ==> final(self)@.sections == old(self)@.sections.push(
                SectionV::Category(channel@),
            ),
            channel@.kind is Other ==> final(self)@.sections == old(self)@.sections,
    {
        let ghost pre = self.sections@.map_values(|s: Section| s@);
        match channel.kind {
            ContainerKind::Channel => {
                let ghost cv = channel@;
                self.sections.push(Section::Channel(channel));
                proof {
                    assert(self.sections@.map_values(|s: Section| s@) =~= pre.push(
                        SectionV::Channel(cv),
                    ));
                }
            },
            ContainerKind::Category => {
                let ghost cv = channel@;
                self.sections.push(Section::Category(channel));
                proof {
                    assert(self.sections@.map_values(|s: Section| s@) =~= pre.push(
                        SectionV::Category(cv),
                    ));
                }
            },
            ContainerKind::Other => {},
        }
    }

    /// The label of the interval this report covers.
    pub fn render_date_range(&self, today: Date) -> (r: String)
        requires
            self.start_date.wf(),
            self.end_date.wf(),
        ensures
            r@ == spec_render_date_range(self.start_date, self.end_date, today),
    {
        render_date_range(self.start_date, self.end_date, today)
    }
}

// ---------------------------------------------------------------------------
// Rendering of one channel section.
// ---------------------------------------------------------------------------

pub open spec fn spec_pins(s: Seq<Pin>) -> Seq<PinV> {
    s.map_values(|p: Pin| p@)
}

/// The pinned messages that fall inside the half-open interval, in their
/// fetched order.
pub open spec fn spec_kept(ps: Seq<PinV>, start: Date, end: Date) -> Seq<PinV>
    decreases ps.len(),
{
    if ps.len() == 0 {
        Seq::empty()
    } else {
        spec_kept(ps.drop_last(), start, end) + if ps.last().date.spec_in_interval(start, end) {
            seq![ps.last()]
        } else {
            Seq::empty()
        }
    }
}

/// One rendered message line, preceded by its separating line break.
pub open spec fn spec_pin_line(p: PinV) -> Seq<char> {
    "\n* "@ + p.content + " ([source]("@ + p.link + "))"@
}

pub open spec fn spec_pin_lines(ps: Seq<PinV>) -> Seq<char>
    decreases ps.len(),
{
    if ps.len() == 0 {
        Seq::empty()
    } else {
        spec_pin_lines(ps.drop_last()) + spec_pin_line(ps.last())
    }
}

/// The line a section falls back to when nothing interesting was pinned,
/// linking back to the container itself.
pub open spec fn spec_placeholder(c: ContainerV) -> Seq<char> {
    "Nothing interesting, but check the channel for [more discussions](https://discord.com/channels/"@
        + spec_dec(c.guild_id as nat) + "/"@ + spec_dec(c.id as nat) + ")"@
}

/// The whole fragment of one channel: heading, one line per message in range,
/// and a trailing line break. With nothing in range, a directly referenced
/// channel keeps its heading and the placeholder line, while a category child
/// renders as the empty fragment and so vanishes from the rollup.
pub open spec fn spec_channel_fragment(
    c: ContainerV,
    ps: Seq<PinV>,
    start: Date,
    end: Date,
    is_sub: bool,
) -> Seq<char> {
    let kept = spec_kept(ps, start, end);
    if kept.len() == 0 && is_sub {
        Seq::empty()
    } else {
        "## "@ + c.name + spec_pin_lines(kept) + (if kept.len() == 0 {
            "\n"@ + spec_placeholder(c)
        } else {
            Seq::<char>::empty()
        }) + "\n"@
    }
}

fn append_placeholder(s: &mut String, c: &Container)
    ensures
        final(s)@ == old(s)@ + spec_placeholder(c@),
{
    s.append(
        "Nothing interesting, but check the channel for [more discussions](https://discord.com/channels/",
    );
    append_dec(s, c.guild_id);
    s.append("/");
    append_dec(s, c.id);
    s.append(")");
    proof {
        assert(s@ =~= old(s)@ + spec_placeholder(c@));
    }
}

/// Renders one channel's fragment from its fetched pinned messages.
pub fn render_channel_section(
    channel: &Container,
    pins: &Vec<Pin>,
    start: &Date,
    end: &Date,
    is_sub: bool,
) -> (r: String)
    ensures
        r@ == spec_channel_fragment(channel@, spec_pins(pins@), *start, *end, is_sub),
{
    let ghost psv = spec_pins(pins@);
    let mut body = String::new();
    let mut any: bool = false;
    let mut i: usize = 0;
    proof {
        assert(psv.take(0) =~= Seq::<PinV>::empty());
    }
    while i < pins.len()
        invariant
            i <= pins.len(),
            psv == spec_pins(pins@),
            psv.len() == pins@.len(),
            body@ == spec_pin_lines(spec_kept(psv.take(i as int), *start, *end)),
            any == (spec_kept(psv.take(i as int), *start, *end).len() > 0),
        decreases pins.len() - i,
    {
        let p = &pins[i];
        let ghost kept_pre = spec_kept(psv.take(i as int), *start, *end);
        proof {
            assert(psv.take(i + 1).drop_last() =~= psv.take(i as int));
            assert(psv.take(i + 1).last() == psv[i as int]);
            assert(psv[i as int] == pins@[i as int]@);
        }
        if p.date.in_interval(start, end) {
            body.append("\n* ");
            body.append(p.content.as_str());
            body.append(" ([source](");
            body.append(p.link.as_str());
            body.append("))");
            any = true;
            proof {
                assert(spec_kept(psv.take(i + 1), *start, *end) =~= kept_pre.push(psv[i as int]));
                assert(spec_kept(psv.take(i + 1), *start, *end).drop_last() =~= kept_pre);
                assert(body@ =~= spec_pin_lines(spec_kept(psv.take(i + 1), *start, *end)));
            }
        } else {
            proof {
                assert(spec_kept(psv.take(i + 1), *start, *end) =~= kept_pre);
            }
        }
        i += 1;
    }
    proof {
        assert(psv.take(pins@.len() as int) =~= psv);
    }
    if !any && is_sub {
        let r = String::new();
        return r;
    }
    let mut r = String::from_str("## ");
    r.append(channel.name.as_str());
    r.append(body.as_str());
    if !any {
        r.append("\n");
        append_placeholder(&mut r, channel);
    }
    r.append("\n");
    proof {
        assert(r@ =~= spec_channel_fragment(channel@, psv, *start, *end, is_sub));
    }
    r
}

// ---------------------------------------------------------------------------
// The render state machine.
// ---------------------------------------------------------------------------

/// The channels a category section picks up from a freshly fetched channel
/// list: channel-kind containers whose parent is this category, in list
/// order.
pub open spec fn spec_children(cs: Seq<ContainerV>, cat_id: u64) -> Seq<ContainerV>
    decreases cs.len(),
{
    if cs.len() == 0 {
        Seq::empty()
    } else {
        spec_children(cs.drop_last(), cat_id) + if cs.last().kind is Channel && cs.last().parent_id
            == Some(cat_id) {
            seq![cs.last()]
        } else {
            Seq::empty()
        }
    }
}

pub open spec fn spec_underline(n: nat) -> Seq<char>
    decreases n,
{
    if n == 0 {
        Seq::empty()
    } else {
        spec_underline((n - 1) as nat).push('=')
    }
}

pub open spec fn spec_title(start: Date, end: Date, today: Date) -> Seq<char> {
    "Important Messages: "@ + spec_render_date_range(start, end, today)
}

/// The first two lines of the report: the title with the rendered interval,
/// and an underline of the same length.
pub open spec fn spec_root_out(start: Date, end: Date, today: Date) -> Seq<char> {
    spec_title(start, end, today) + "\n"@ + spec_underline(spec_title(start, end, today).len())
}

/// Where the render stands: not yet begun; awaiting the pinned messages of
/// the current top-level channel section; awaiting the channel list for the
/// current category section; awaiting the pinned messages of one category
/// child; or finished, successfully or not.
#[derive(Clone, Copy, PartialEq, Eq, Structural, Debug)]
pub enum PhaseTag {
    Start,
    WantPins,
    WantChannels,
    WantChildPins,
    Done,
}

/// What the driver must do next: fetch a channel's pinned messages, fetch the
/// channel list of the named namespace, deliver the finished report, or give
/// the whole render up.
pub enum RenderAction {
    FetchPins(u64),
    FetchChannels(u64),
    Finished(String),
    Failed,
}

#[verifier::ext_equal]
pub enum ActionM {
    FetchPins(u64),
    FetchChannels(u64),
    Finished(Seq<char>),
    Failed,
}

impl View for RenderAction {
    type V = ActionM;

    open spec fn view(&self) -> ActionM {
        match self {
            RenderAction::FetchPins(id) => ActionM::FetchPins(*id),
            RenderAction::FetchChannels(id) => ActionM::FetchChannels(*id),
            RenderAction::Finished(s) => ActionM::Finished(s@),
            RenderAction::Failed => ActionM::Failed,
        }
    }
}

/// What the driver hands back: the go-ahead to begin, a fetched set of pinned
/// messages, a fetched channel list, or word that a fetch failed.
pub enum RenderEvent {
    Begin,
    Pins(Vec<Pin>),
    Channels(Vec<Container>),
    FetchFailed,
}

#[verifier::ext_equal]
pub enum EventM {
    Begin,
    Pins(Seq<PinV>),
    Channels(Seq<ContainerV>),
    FetchFailed,
}

impl View for RenderEvent {
    type V = EventM;

    open spec fn view(&self) -> EventM {
        match self {
            RenderEvent::Begin => EventM::Begin,
            RenderEvent::Pins(v) => EventM::Pins(spec_pins(v@)),
            RenderEvent::Channels(v) => EventM::Channels(v@.map_values(|c: Container| c@)),
            RenderEvent::FetchFailed => EventM::FetchFailed,
        }
    }
}

/// The renderer walking the document tree. It owns the accumulated output,
/// the index of the current top-level section, and, while inside a category,
/// the discovered children with the category's own accumulator.
pub struct Renderer {
    pub doc: Doc,
    pub today: Date,
    pub out: String,
    pub sec_idx: usize,
    pub phase: PhaseTag,
    pub children: Vec<Container>,
    pub child_idx: usize,
    pub cat_out: String,
    pub any_child: bool,
}

#[verifier::ext_equal]
pub struct RendererM {
    pub doc: DocV,
    pub today: Date,
    pub out: Seq<char>,
    pub sec_idx: int,
    pub phase: PhaseTag,
    pub children: Seq<ContainerV>,
    pub child_idx: int,
    pub cat_out: Seq<char>,
    pub any_child: bool,
}

impl View for Renderer {
    type V = RendererM;

    open spec fn view(&self) -> RendererM {
        RendererM {
            doc: self.doc@,
            today: self.today,
            out: self.out@,
            sec_idx: self.sec_idx as int,
            phase: self.phase,
            children: self.children@.map_values(|c: Container| c@),
            child_idx: self.child_idx as int,
            cat_out: self.cat_out@,
            any_child: self.any_child,
        }
    }
}

impl RendererM {
    /// What every reachable machine state satisfies: the section index stays
    /// in range, the interval dates are well formed, and the phase agrees
    /// with the kind of the current section.
    pub open spec fn wf(self) -> bool {
        &&& self.doc.start_date.wf()
        &&& self.doc.end_date.wf()
        &&& 0 <= self.sec_idx <= self.doc.sections.len()
        &&& match self.phase {
            PhaseTag::Start => self.sec_idx == 0,
            PhaseTag::WantPins => self.sec_idx < self.doc.sections.len()
                && self.doc.sections[self.sec_idx] is Channel,
            PhaseTag::WantChannels => self.sec_idx < self.doc.sections.len()
                && self.doc.sections[self.sec_idx] is Category,
            PhaseTag::WantChildPins => self.sec_idx < self.doc.sections.len()
                && self.doc.sections[self.sec_idx] is Category && 0 <= self.child_idx
                < self.children.len(),
            PhaseTag::Done => true,
        }
    }

    pub open spec fn section_container(self) -> ContainerV {
        match self.doc.sections[self.sec_idx] {
            SectionV::Channel(c) => c,
            SectionV::Category(c) => c,
        }
    }
}

/// Moving on after a finished top-level section (or before the first): emit
/// the fetch the next section needs, or deliver the whole document when none
/// is left.
pub open spec fn spec_advance(m: RendererM) -> (RendererM, ActionM) {
    if m.sec_idx >= m.doc.sections.len() {
        (RendererM { phase: PhaseTag::Done, ..m }, ActionM::Finished(m.out))
    } else {
        match m.doc.sections[m.sec_idx] {
            SectionV::Channel(c) => (
                RendererM { phase: PhaseTag::WantPins, ..m },
                ActionM::FetchPins(c.id),
            ),
            SectionV::Category(c) => (
                RendererM { phase: PhaseTag::WantChannels, ..m },
                ActionM::FetchChannels(c.guild_id),
            ),
        }
    }
}

/// The whole transition function of the render. A failed fetch, at any
/// point, and any event that does not answer the pending request, abandons
/// the render; the finished document is emitted only after the last section
/// has fully rendered.
pub open spec fn spec_step(m: RendererM, e: EventM) -> (RendererM, ActionM) {
    match (m.phase, e) {
        (PhaseTag::Start, EventM::Begin) => spec_advance(
            RendererM { out: spec_root_out(m.doc.start_date, m.doc.end_date, m.today), ..m },
        ),
        (PhaseTag::WantPins, EventM::Pins(ps)) => {
            let frag = spec_channel_fragment(
                m.section_container(),
                ps,
                m.doc.start_date,
                m.doc.end_date,
                false,
            );
            spec_advance(RendererM { out: m.out + "\n"@ + frag, sec_idx: m.sec_idx + 1, ..m })
        },
        (PhaseTag::WantChannels, EventM::Channels(cs)) => {
            let cat = m.section_container();
            let children = spec_children(cs, cat.id);
            let co = "## "@ + cat.name + "\n"@;
            if children.len() == 0 {
                spec_advance(
                    RendererM {
                        out: m.out + "\n"@ + co + spec_placeholder(cat),
                        sec_idx: m.sec_idx + 1,
                        cat_out: co + spec_placeholder(cat),
                        ..m
                    },
                )
            } else {
                (
                    RendererM {
                        phase: PhaseTag::WantChildPins,
                        children: children,
                        child_idx: 0,
                        cat_out: co,
                        any_child: false,
                        ..m
                    },
                    ActionM::FetchPins(children[0].id),
                )
            }
        },
        (PhaseTag::WantChildPins, EventM::Pins(ps)) => {
            let frag = spec_channel_fragment(
                m.children[m.child_idx],
                ps,
                m.doc.start_date,
                m.doc.end_date,
                true,
            );
            let cat_out2 = if frag.len() == 0 {
                m.cat_out
            } else {
                m.cat_out + "#"@ + frag
            };
            let any2 = m.any_child || frag.len() > 0;
            if m.child_idx + 1 < m.children.len() {
                (
                    RendererM { child_idx: m.child_idx + 1, cat_out: cat_out2, any_child: any2, ..m },
                    ActionM::FetchPins(m.children[m.child_idx + 1].id),
                )
            } else {
                let catf = if any2 {
                    cat_out2
                } else {
                    cat_out2 + spec_placeholder(m.section_container())
                };
                spec_advance(
                    RendererM {
                        out: m.out + "\n"@ + catf,
                        sec_idx: m.sec_idx + 1,
                        child_idx: m.child_idx + 1,
                        cat_out: catf,
                        any_child: any2,
                        ..m
                    },
                )
            }
        },
        (_, _) => (RendererM { phase: PhaseTag::Done, ..m }, ActionM::Failed),
    }
}

impl Renderer {
    /// A renderer poised to begin on the given document.
    pub fn new(doc: Doc, today: Date) -> (r: Renderer)
        requires
            doc.start_date.wf(),
            doc.end_date.wf(),
        ensures
            r@.doc == doc@,
            r@.today == today,
            r@.out == Seq::<char>::empty(),
            r@.sec_idx == 0,
            r@.phase == PhaseTag::Start,
            r@.wf(),
    {
        Renderer {
            doc,
            today,
            out: String::new(),
            sec_idx: 0,
            phase: PhaseTag::Start,
            children: Vec::new(),
            child_idx: 0,
            cat_out: String::new(),
            any_child: false,
        }
    }

    fn advance(&mut self) -> (a: RenderAction)
        requires
            old(self)@.sec_idx <= old(self)@.doc.sections.len(),
            old(self)@.doc.start_date.wf(),
            old(self)@.doc.end_date.wf(),
        ensures
            final(self)@ == spec_advance(old(self)@).0,
            a@ == spec_advance(old(self)@).1,
    {
        if self.sec_idx >= self.doc.sections.len() {
            self.phase = PhaseTag::Done;
            let out = self.out.clone();
            proof {
                assert(self@ =~= spec_advance(old(self)@).0);
            }
            RenderAction::Finished(out)
        } else {
            match &self.doc.sections[self.sec_idx] {
                Section::Channel(c) => {
                    let id = c.id;
                    self.phase = PhaseTag::WantPins;
                    proof {
                        assert(old(self)@.doc.sections[old(self)@.sec_idx]
                            == old(self).doc.sections@[old(self)@.sec_idx]@);
                        assert(self@ =~= spec_advance(old(self)@).0);
                    }
                    RenderAction::FetchPins(id)
                },
                Section::Category(c) => {
                    let gid = c.guild_id;
                    self.phase = PhaseTag::WantChannels;
                    proof {
                        assert(old(self)@.doc.sections[old(self)@.sec_idx]
                            == old(self).doc.sections@[old(self)@.sec_idx]@);
                        assert(self@ =~= spec_advance(old(self)@).0);
                    }
                    RenderAction::FetchChannels(gid)
                },
            }
        }
    }

    /// Drives the render one transition: answers the pending fetch with its
    /// result and hands back the next thing to do. The driver calls this in a
    /// loop, performing each requested fetch, until `Finished` or `Failed`
    /// comes back.
    pub fn step(&mut self, event: RenderEvent) -> (a: RenderAction)
        requires
            old(self)@.wf(),
        ensures
            final(self)@ == spec_step(old(self)@, event@).0,
            a@ == spec_step(old(self)@, event@).1,
            final(self)@.wf(),
    {
        match (self.phase, event) {
            (PhaseTag::Start, RenderEvent::Begin) => {
                let label = self.doc.render_date_range(self.today);
                let mut t = String::from_str("Important Messages: ");
                t.append(label.as_str());
                let n = t.unicode_len();
                t.append("\n");
                let ghost tv = spec_title(self.doc.start_date, self.doc.end_date, self.today);
                proof {
                    assert(t@ =~= tv + "\n"@);
                }
                let mut k: usize = 0;
                while k < n
                    invariant
                        k <= n,
                        t@ == tv + "\n"@ + spec_underline(k as nat),
                    decreases n - k,
                {
                    t.append("=");
                    proof {
                        reveal_strlit("=");
                        assert(t@ =~= tv + "\n"@ + spec_underline((k + 1) as nat));
                    }
                    k += 1;
                }
                self.out = t;
                let a = self.advance();
                proof {
                    assert(self@ =~= spec_step(old(self)@, event@).0);
                }
                a
            },
            (PhaseTag::WantPins, RenderEvent::Pins(ps)) => {
                let frag = match &self.doc.sections[self.sec_idx] {
                    Section::Channel(c) => render_channel_section(
                        c,
                        &ps,
                        &self.doc.start_date,
                        &self.doc.end_date,
                        false,
                    ),
                    Section::Category(c) => render_channel_section(
                        c,
                        &ps,
                        &self.doc.start_date,
                        &self.doc.end_date,
                        false,
                    ),
                };
                proof {
                    assert(old(self)@.doc.sections[old(self)@.sec_idx]
                        == old(self).doc.sections@[old(self)@.sec_idx]@);
                }
                self.out.append("\n");
                self.out.append(frag.as_str());
                let n_secs = self.doc.sections.len();
                proof {
                    assert(self.sec_idx < n_secs);
                }
                self.sec_idx = self.sec_idx + 1;
                let a = self.advance();
                proof {
                    assert(spec_step(old(self)@, EventM::Pins(spec_pins(ps@))).0 == spec_advance(
                        RendererM {
                            out: old(self)@.out + "\n"@ + frag@,
                            sec_idx: old(self)@.sec_idx + 1,
                            ..old(self)@
                        },
                    ).0);
                    assert(self@ =~= spec_step(old(self)@, EventM::Pins(spec_pins(ps@))).0);
                }
                a
            },
            (PhaseTag::WantChannels, RenderEvent::Channels(cs)) => {
                let ghost csv = cs@.map_values(|c: Container| c@);
                let ghost catv = old(self)@.section_container();
                proof {
                    assert(old(self)@.doc.sections[old(self)@.sec_idx]
                        == old(self).doc.sections@[old(self)@.sec_idx]@);
                }
                let cat_id = match &self.doc.sections[self.sec_idx] {
                    Section::Channel(c) => c.id,
                    Section::Category(c) => c.id,
                };
                let mut children: Vec<Container> = Vec::new();
                let mut i: usize = 0;
                proof {
                    assert(csv.take(0) =~= Seq::<ContainerV>::empty());
                    assert(children@.map_values(|c: Container| c@) =~= spec_children(
                        csv.take(0),
                        cat_id,
                    ));
                }
                while i < cs.len()
                    invariant
                        i <= cs.len(),
                        csv == cs@.map_values(|c: Container| c@),
                        csv.len() == cs@.len(),
                        children@.map_values(|c: Container| c@) == spec_children(
                            csv.take(i as int),
                            cat_id,
                        ),
                    decreases cs.len() - i,
                {
                    let ghost pre = children@.map_values(|c: Container| c@);
                    proof {
                        assert(csv.take(i + 1).drop_last() =~= csv.take(i as int));
                        assert(csv.take(i + 1).last() == csv[i as int]);
                        assert(csv[i as int] == cs@[i as int]@);
                    }
                    let c = &cs[i];
                    let is_child = match (c.kind, c.parent_id) {
                        (ContainerKind::Channel, Some(pid)) => pid == cat_id,
                        _ => false,
                    };
                    if is_child {
                        children.push(c.clone());
                        proof {
                            assert(children@.map_values(|cc: Container| cc@) =~= pre.push(
                                csv[i as int],
                            ));
                            assert(spec_children(csv.take(i + 1), cat_id) =~= spec_children(
                                csv.take(i as int),
                                cat_id,
                            ).push(csv[i as int]));
                        }
                    } else {
                        proof {
                            assert(spec_children(csv.take(i + 1), cat_id) =~= spec_children(
                                csv.take(i as int),
                                cat_id,
                            ));
                        }
                    }
                    i += 1;
                }
                proof {
                    assert(csv.take(cs@.len() as int) =~= csv);
                }
                let mut co = String::from_str("## ");
                match &self.doc.sections[self.sec_idx] {
                    Section::Channel(c) => co.append(c.name.as_str()),
                    Section::Category(c) => co.append(c.name.as_str()),
                };
                co.append("\n");
                proof {
                    assert(co@ =~= "## "@ + catv.name + "\n"@);
                }
                if children.len() == 0 {
                    self.out.append("\n");
                    self.out.append(co.as_str());
                    self.cat_out = co;
                    match &self.doc.sections[self.sec_idx] {
                        Section::Channel(c) => {
                            append_placeholder(&mut self.out, c);
                            append_placeholder(&mut self.cat_out, c);
                        },
                        Section::Category(c) => {
                            append_placeholder(&mut self.out, c);
                            append_placeholder(&mut self.cat_out, c);
                        },
                    };
                    let n_secs = self.doc.sections.len();
                    proof {
                        assert(self.sec_idx < n_secs);
                    }
                    self.sec_idx = self.sec_idx + 1;
                    let a = self.advance();
                    proof {
                        assert(self@ =~= spec_step(old(self)@, EventM::Channels(csv)).0);
                    }
                    a
                } else {
                    let first_id = children[0].id;
                    proof {
                        assert(children@.map_values(|c: Container| c@)[0] == children@[0]@);
                    }
                    self.children = children;
                    self.child_idx = 0;
                    self.cat_out = co;
                    self.any_child = false;
                    self.phase = PhaseTag::WantChildPins;
                    proof {
                        assert(self@ =~= spec_step(old(self)@, EventM::Channels(csv)).0);
                    }
                    RenderAction::FetchPins(first_id)
                }
            },
            (PhaseTag::WantChildPins, RenderEvent::Pins(ps)) => {
                let frag = render_channel_section(
                    &self.children[self.child_idx],
                    &ps,
                    &self.doc.start_date,
                    &self.doc.end_date,
                    true,
                );
                proof {
                    assert(old(self)@.children[old(self)@.child_idx]
                        == old(self).children@[old(self)@.child_idx]@);
                }
                if !frag.as_str().is_empty() {
                    self.cat_out.append("#");
                    self.cat_out.append(frag.as_str());
                    self.any_child = true;
                }
                let n_children = self.children.len();
                proof {
                    assert(self.child_idx < n_children);
                }
                self.child_idx = self.child_idx + 1;
                if self.child_idx < self.children.len() {
                    let id = self.children[self.child_idx].id;
                    proof {
                        assert(old(self)@.children[old(self)@.child_idx + 1]
                            == old(self).children@[old(self)@.child_idx + 1]@);
                        assert(self@ =~= spec_step(old(self)@, EventM::Pins(spec_pins(ps@))).0);
                    }
                    RenderAction::FetchPins(id)
                } else {
                    if !self.any_child {
                        proof {
                            assert(old(self)@.doc.sections[old(self)@.sec_idx]
                                == old(self).doc.sections@[old(self)@.sec_idx]@);
                        }
                        match &self.doc.sections[self.sec_idx] {
                            Section::Channel(c) => append_placeholder(&mut self.cat_out, c),
                            Section::Category(c) => append_placeholder(&mut self.cat_out, c),
                        };
                    }
                    self.out.append("\n");
                    let catf = self.cat_out.clone();
                    self.out.append(catf.as_str());
                    let n_secs = self.doc.sections.len();
                    proof {
                        assert(self.sec_idx < n_secs);
                    }
                    self.sec_idx = self.sec_idx + 1;
                    let a = self.advance();
                    proof {
                        assert(self@ =~= spec_step(old(self)@, EventM::Pins(spec_pins(ps@))).0);
                    }
                    a
                }
            },
            (_, _) => {
                self.phase = PhaseTag::Done;
                proof {
                    assert(self@ =~= spec_step(old(self)@, event@).0);
                }
                RenderAction::Failed
            },
        }
    }
}

// ---------------------------------------------------------------------------
// Laws of the render.
// ---------------------------------------------------------------------------

proof fn lemma_kept_empty(ps: Seq<PinV>, start: Date, end: Date)
    requires
        forall|i: int| 0 <= i < ps.len() ==> !(#[trigger] ps[i]).date.spec_in_interval(start, end),
    ensures
        spec_kept(ps, start, end).len() == 0,
    decreases ps.len(),
{
    if ps.len() > 0 {
        assert(forall|i: int|
            0 <= i < ps.drop_last().len() ==> !(#[trigger] ps.drop_last()[i]).date.spec_in_interval(
                start,
                end,
            ));
        lemma_kept_empty(ps.drop_last(), start, end);
        assert(!ps.last().date.spec_in_interval(start, end));
    }
}

/// With no pinned message in the interval, a directly referenced channel
/// renders exactly its heading and the placeholder line, and the same channel
/// as a category child renders the empty fragment.
pub proof fn lemma_empty_channel_round_trip(c: ContainerV, ps: Seq<PinV>, start: Date, end: Date)
    requires
        forall|i: int| 0 <= i < ps.len() ==> !(#[trigger] ps[i]).date.spec_in_interval(start, end),
    ensures
        spec_channel_fragment(c, ps, start, end, true) == Seq::<char>::empty(),
        spec_channel_fragment(c, ps, start, end, false) == "## "@ + c.name + "\n"@
            + spec_placeholder(c) + "\n"@,
{
    lemma_kept_empty(ps, start, end);
    assert(spec_channel_fragment(c, ps, start, end, false) =~= "## "@ + c.name + "\n"@
        + spec_placeholder(c) + "\n"@);
}

/// An empty child fragment is omitted from the category's rollup: stepping a
/// category child whose pinned messages all fall outside the interval leaves
/// the category's accumulated output unchanged, except that the last child of
/// a category with no contributing child brings in the category's own
/// placeholder.
pub proof fn lemma_empty_child_omitted(m: RendererM, ps: Seq<PinV>)
    requires
        m.wf(),
        m.phase == PhaseTag::WantChildPins,
        forall|i: int|
            0 <= i < ps.len() ==> !(#[trigger] ps[i]).date.spec_in_interval(
                m.doc.start_date,
                m.doc.end_date,
            ),
    ensures
        spec_step(m, EventM::Pins(ps)).0.any_child == m.any_child,
        m.child_idx + 1 < m.children.len() ==> spec_step(m, EventM::Pins(ps)).0.cat_out
            == m.cat_out,
        m.child_idx + 1 >= m.children.len() && m.any_child ==> spec_step(m, EventM::Pins(ps)).0.cat_out
            == m.cat_out,
        m.child_idx + 1 >= m.children.len() && !m.any_child ==> spec_step(m, EventM::Pins(ps)).0.cat_out
            == m.cat_out + spec_placeholder(m.section_container()),
{
    lemma_empty_channel_round_trip(
        m.children[m.child_idx],
        ps,
        m.doc.start_date,
        m.doc.end_date,
    );
}

/// A fetch failure at any point abandons the whole render: the machine
/// answers `Failed` and goes dead, and a dead machine never emits anything
/// but `Failed` afterwards — so no partial document ever escapes, however
/// many sections had already rendered.
pub proof fn lemma_fetch_failure_aborts(m: RendererM, e: EventM)
    ensures
        spec_step(m, EventM::FetchFailed).1 == ActionM::Failed,
        spec_step(m, EventM::FetchFailed).0.phase == PhaseTag::Done,
        m.phase == PhaseTag::Done ==> spec_step(m, e).1 == ActionM::Failed,
{
}

} // verus!
