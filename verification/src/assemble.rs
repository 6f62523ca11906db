use vstd::prelude::*;
use crate::date::Date;
use crate::daterange::resolve_date_range;
use crate::daterange::spec_resolve_date_range;
use crate::doccer::Doc;
use crate::doccer::DocV;
use crate::doccer::SectionV;
use crate::matching::parse_channel;
use crate::matching::spec_parse_channel;
use crate::model::ContainerKind;
use crate::model::ContainerV;
use crate::model::Namespace;
use crate::model::NamespaceV;

verus! {

/// The section a resolved container contributes, if any: channels and
/// categories each make one, any other kind is dropped silently.
pub open spec fn spec_section_of(c: ContainerV) -> Seq<SectionV> {
    match c.kind {
        ContainerKind::Channel => seq![SectionV::Channel(c)],
        ContainerKind::Category => seq![SectionV::Category(c)],
        ContainerKind::Other => Seq::empty(),
    }
}

/// Resolution of the reference tokens from position `i` on: each token must
/// resolve to a container, in order, and the first token that does not stops
/// everything and is reported back.
pub open spec fn spec_resolve_refs(tokens: Seq<Seq<char>>, ns: NamespaceV, i: int) -> Result<
    Seq<SectionV>,
    Seq<char>,
>
    decreases tokens.len() - i,
{
    if i < 0 || i >= tokens.len() {
        Ok(Seq::empty())
    } else {
        match spec_parse_channel(ns, tokens[i]) {
            Some(c) => match spec_resolve_refs(tokens, ns, i + 1) {
                Ok(rest) => Ok(spec_section_of(c) + rest),
                Err(t) => Err(t),
            },
            None => Err(tokens[i]),
        }
    }
}

pub open spec fn spec_tokens(tokens: Seq<String>) -> Seq<Seq<char>> {
    tokens.map_values(|t: String| t@)
}

/// A successful build over the given parse outcomes: the interval follows the
/// defaulting rules, and the sections are exactly the resolution of the
/// tokens left after the consumed ones.
pub open spec fn spec_build_ok(
    p1: Option<Date>,
    p2: Option<Date>,
    tokens: Seq<Seq<char>>,
    ns: NamespaceV,
    today: Date,
    d: DocV,
) -> bool {
    let rr = spec_resolve_date_range(p1, p2, today);
    &&& d.start_date == rr.start
    &&& d.end_date == rr.end
    &&& spec_resolve_refs(tokens, ns, rr.consumed as int) == Ok::<_, Seq<char>>(d.sections)
}

/// A failed build over the given parse outcomes: resolution of the remaining
/// tokens stopped at exactly the reported one.
pub open spec fn spec_build_err(
    p1: Option<Date>,
    p2: Option<Date>,
    tokens: Seq<Seq<char>>,
    ns: NamespaceV,
    today: Date,
    bad: Seq<char>,
) -> bool {
    let rr = spec_resolve_date_range(p1, p2, today);
    spec_resolve_refs(tokens, ns, rr.consumed as int) == Err::<Seq<SectionV>, _>(bad)
}

/// Builds the whole report tree. The date parser is an external collaborator
/// whose calls the driver makes — it aborts on some date-dependent inputs, so
/// nothing over the tokens alone could stand for its outcome — and `first`
/// and `second` are its answers for the two leading tokens. They fix the
/// interval per the defaulting rules and how many leading tokens were
/// consumed as dates; every remaining token must resolve to a container of
/// the namespace, in order, and the first token that resolves to nothing
/// aborts the build and comes back as the error.
pub fn build_doc(
    first: Option<Date>,
    second: Option<Date>,
    tokens: &Vec<String>,
    guild: &Namespace,
    today: Date,
) -> (r: Result<Doc, String>)
    requires
        today.wf(),
        first matches Some(d) ==> d.wf(),
        second matches Some(d) ==> d.wf(),
    ensures
        r matches Ok(d) ==> spec_build_ok(first, second, spec_tokens(tokens@), guild@, today, d@),
        r matches Err(t) ==> spec_build_err(
            first,
            second,
            spec_tokens(tokens@),
            guild@,
            today,
            t@,
        ),
        r matches Ok(d) ==> d@.start_date.wf() && d@.end_date.wf(),
{
    let rr = resolve_date_range(first, second, today);
    let ghost tv = spec_tokens(tokens@);
    let mut doc = Doc::new(rr.start, rr.end);
    let mut i: usize = if rr.consumed <= tokens.len() {
        rr.consumed
    } else {
        tokens.len()
    };
    proof {
        broadcast use Seq::add_empty_left;
        broadcast use Seq::add_empty_right;

        assert(forall|rest: Seq<SectionV>| doc@.sections + rest == rest);
        assert(spec_resolve_refs(tv, guild@, rr.consumed as int) == spec_resolve_refs(
            tv,
            guild@,
            i as int,
        ));
    }
    while i < tokens.len()
        invariant
            rr == spec_resolve_date_range(first, second, today),
            i <= tokens@.len(),
            tv == spec_tokens(tokens@),
            tv.len() == tokens@.len(),
            doc@.start_date == rr.start,
            doc@.end_date == rr.end,
            forall|rest: Seq<SectionV>|
                spec_resolve_refs(tv, guild@, i as int) == Ok::<_, Seq<char>>(rest)
                    ==> spec_resolve_refs(tv, guild@, rr.consumed as int) == Ok::<
                    _,
                    Seq<char>,
                >(doc@.sections + rest),
            forall|bad: Seq<char>|
                spec_resolve_refs(tv, guild@, i as int) == Err::<Seq<SectionV>, _>(bad)
                    ==> spec_resolve_refs(tv, guild@, rr.consumed as int) == Err::<
                    Seq<SectionV>,
                    _,
                >(bad),
        decreases tokens@.len() - i,
    {
        proof {
            assert(tv[i as int] == tokens@[i as int]@);
        }
        match parse_channel(guild, &tokens[i]) {
            Some(c) => {
                let ghost cv = c@;
                let ghost secs_pre = doc@.sections;
                doc.add_channel(c);
                proof {
                    assert(secs_pre + spec_section_of(cv) =~= doc@.sections);
                    assert(forall|rest: Seq<SectionV>|
                        spec_resolve_refs(tv, guild@, i + 1) == Ok::<_, Seq<char>>(rest)
                            ==> spec_resolve_refs(tv, guild@, i as int) == Ok::<_, Seq<char>>(
                            spec_section_of(cv) + rest,
                        ));
                    assert(forall|rest: Seq<SectionV>|
                        spec_resolve_refs(tv, guild@, i + 1) == Ok::<_, Seq<char>>(rest)
                            ==> secs_pre + (spec_section_of(cv) + rest) =~= doc@.sections + rest);
                }
                i += 1;
            },
            None => {
                proof {
                    assert(spec_resolve_refs(tv, guild@, i as int) == Err::<Seq<SectionV>, _>(
                        tv[i as int],
                    ));
                }
                let bad = tokens[i].clone();
                proof {
                    assert(bad@ == tv[i as int]);
                    assert(spec_build_err(first, second, tv, guild@, today, bad@));
                }
                return Err(bad);
            },
        }
    }
    proof {
        assert(spec_resolve_refs(tv, guild@, tokens@.len() as int) == Ok::<_, Seq<char>>(
            Seq::<SectionV>::empty(),
        ));
        assert(doc@.sections + Seq::<SectionV>::empty() =~= doc@.sections);
        assert(spec_build_ok(first, second, tv, guild@, today, doc@));
    }
    Ok(doc)
}

} // verus!
