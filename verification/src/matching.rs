use vstd::prelude::*;
use crate::model::Container;
use crate::model::ContainerKind;
use crate::model::ContainerV;
use crate::model::Namespace;
use crate::model::NamespaceV;

verus! {

// ---------------------------------------------------------------------------
// Substring containment, the "soft" match test.
// ---------------------------------------------------------------------------

pub open spec fn spec_contains_at(hay: Seq<char>, needle: Seq<char>, i: int) -> bool {
    0 <= i && i + needle.len() <= hay.len() && hay.subrange(i, i + needle.len()) == needle
}

pub open spec fn spec_contains(hay: Seq<char>, needle: Seq<char>) -> bool {
    exists|i: int| spec_contains_at(hay, needle, i)
}

fn match_at(hay: &str, needle: &str, i: usize, n: usize, m: usize) -> (r: bool)
    requires
        i + m <= n,
        n == hay@.len(),
        m == needle@.len(),
    ensures
        r == spec_contains_at(hay@, needle@, i as int),
{
    let mut j: usize = 0;
    while j < m
        invariant
            j <= m,
            i + m <= n,
            n == hay@.len(),
            m == needle@.len(),
            forall|t: int| 0 <= t < j ==> hay@[i + t] == needle@[t],
        decreases m - j,
    {
        if hay.get_char(i + j) != needle.get_char(j) {
            proof {
                assert(hay@.subrange(i as int, i + m)[j as int] == hay@[i + j]);
            }
            return false;
        }
        j += 1;
    }
    proof {
        assert(hay@.subrange(i as int, i + m) =~= needle@);
    }
    true
}

/// Case-sensitive substring containment over characters; the caller hands in
/// already-lowercased text.
pub fn str_contains(hay: &str, needle: &str) -> (r: bool)
    ensures
        r == spec_contains(hay@, needle@),
{
    let n = hay.unicode_len();
    let m = needle.unicode_len();
    if m == 0 {
        proof {
            assert(hay@.subrange(0, 0) =~= needle@);
            assert(spec_contains_at(hay@, needle@, 0));
        }
        return true;
    }
    if m > n {
        return false;
    }
    let mut i: usize = 0;
    while i <= n - m
        invariant
            1 <= m <= n,
            n == hay@.len(),
            m == needle@.len(),
            i <= n - m + 1,
            forall|k: int| 0 <= k < i ==> !spec_contains_at(hay@, needle@, k),
        decreases n - m + 1 - i,
    {
        if match_at(hay, needle, i, n, m) {
            return true;
        }
        i += 1;
    }
    proof {
        assert(forall|k: int| #[trigger] spec_contains_at(hay@, needle@, k) ==> 0 <= k < i);
    }
    false
}

// ---------------------------------------------------------------------------
// The lowercase boundary.
// ---------------------------------------------------------------------------

/// What `str::to_lowercase` returns for a given sequence of characters.
pub uninterp spec fn lower_of(s: Seq<char>) -> Seq<char>;

/// Relies on `str::to_lowercase`: the Unicode lowercase mapping, which depends
/// on the characters alone.
#[verifier::external_body]
fn lowercase(s: &str) -> (r: String)
    ensures
        r@ == lower_of(s@),
{
    s.to_lowercase()
}

// ---------------------------------------------------------------------------
// The per-container fold of the running match state.
// ---------------------------------------------------------------------------

/// The running state of one lane of a resolution pass. "Hard" is exact
/// case-insensitive equality, "soft" substring containment. The held
/// identifier collapses to `None` when a second match of the same strength is
/// seen; the strength class is kept, so a later strictly stronger match can
/// still take the lane over.
#[derive(Clone, Copy, Debug)]
pub enum ChannelMatch {
    NoMatch,
    SoftMatch(Option<u64>),
    HardMatch(Option<u64>),
}

/// How one container's name classifies against the (lowercased) query.
pub open spec fn spec_classify(name_lower: Seq<char>, query: Seq<char>, id: u64) -> ChannelMatch {
    if name_lower == query {
        ChannelMatch::HardMatch(Some(id))
    } else if spec_contains(name_lower, query) {
        ChannelMatch::SoftMatch(Some(id))
    } else {
        ChannelMatch::NoMatch
    }
}

/// The tie-break table: a stronger classification takes the lane over, an
/// equal one clears the held identifier, a weaker one (including no match at
/// all) leaves the lane as it stood.
pub open spec fn spec_fold_match(prev: ChannelMatch, curr: ChannelMatch) -> ChannelMatch {
    match (prev, curr) {
        (ChannelMatch::NoMatch, c) => c,
        (ChannelMatch::SoftMatch(_), ChannelMatch::HardMatch(id)) => ChannelMatch::HardMatch(id),
        (ChannelMatch::SoftMatch(_), ChannelMatch::SoftMatch(_)) => ChannelMatch::SoftMatch(None),
        (ChannelMatch::HardMatch(_), ChannelMatch::HardMatch(_)) => ChannelMatch::HardMatch(None),
        (p, _) => p,
    }
}

/// One fold step: classify the container's lowercased name against the query
/// and feed the outcome through the tie-break table.
pub open spec fn spec_channel_to_match(c: ContainerV, prev: ChannelMatch, query: Seq<char>) -> ChannelMatch {
    spec_fold_match(prev, spec_classify(lower_of(c.name), query, c.id))
}

/// Folds one container into a lane's running state. `name` is the already
/// lowercased query.
pub fn channel_to_match(channel: &Container, prev_match: &ChannelMatch, name: &String) -> (r: ChannelMatch)
    ensures
        r == spec_channel_to_match(channel@, *prev_match, name@),
{
    let channel_name = lowercase(channel.name.as_str());
    let curr: ChannelMatch = if channel_name == *name {
        ChannelMatch::HardMatch(Some(channel.id))
    } else if str_contains(channel_name.as_str(), name.as_str()) {
        ChannelMatch::SoftMatch(Some(channel.id))
    } else {
        ChannelMatch::NoMatch
    };
    match (*prev_match, curr) {
        (ChannelMatch::NoMatch, c) => c,
        (ChannelMatch::SoftMatch(_), ChannelMatch::HardMatch(id)) => ChannelMatch::HardMatch(id),
        (ChannelMatch::SoftMatch(_), ChannelMatch::SoftMatch(_)) => ChannelMatch::SoftMatch(None),
        (ChannelMatch::HardMatch(_), ChannelMatch::HardMatch(_)) => ChannelMatch::HardMatch(None),
        (p, _) => p,
    }
}

// ---------------------------------------------------------------------------
// The two-lane scan over a namespace.
// ---------------------------------------------------------------------------

pub open spec fn spec_lookup(s: Seq<ContainerV>, id: u64) -> Option<ContainerV>
    decreases s.len(),
{
    if s.len() == 0 {
        None
    } else if s[0].id == id {
        Some(s[0])
    } else {
        spec_lookup(s.drop_first(), id)
    }
}

/// The state carried across the scan: the channel-name lane, the
/// category-name lane, and the categories already folded (memoized, so a
/// category counts once however many channels sit under it).
pub struct ScanState {
    pub text: ChannelMatch,
    pub cat: ChannelMatch,
    pub seen: Seq<u64>,
}

pub open spec fn spec_scan_init() -> ScanState {
    ScanState { text: ChannelMatch::NoMatch, cat: ChannelMatch::NoMatch, seen: Seq::empty() }
}

/// One container of the namespace is visited: channel-kind names fold into the
/// text lane; the container's parent category, the first time it is seen,
/// folds into the category lane.
pub open spec fn spec_scan_step(st: ScanState, ns: NamespaceV, c: ContainerV, q: Seq<char>) -> ScanState {
    let text = if c.kind is Channel {
        spec_channel_to_match(c, st.text, q)
    } else {
        st.text
    };
    match c.parent_id {
        Some(pid) => if st.seen.contains(pid) {
            ScanState { text, cat: st.cat, seen: st.seen }
        } else {
            match spec_lookup(ns.containers, pid) {
                Some(p) => ScanState {
                    text,
                    cat: if p.kind is Category {
                        spec_channel_to_match(p, st.cat, q)
                    } else {
                        st.cat
                    },
                    seen: st.seen.push(pid),
                },
                None => ScanState { text, cat: st.cat, seen: st.seen },
            }
        },
        None => ScanState { text, cat: st.cat, seen: st.seen },
    }
}

pub open spec fn spec_scan(ns: NamespaceV, q: Seq<char>, i: int) -> ScanState
    decreases i,
{
    if i <= 0 {
        spec_scan_init()
    } else {
        spec_scan_step(spec_scan(ns, q, i - 1), ns, ns.containers[i - 1], q)
    }
}

/// Cross-lane selection order: text hard, text soft, category hard, category
/// soft; the first lane holding a concrete identifier wins.
pub open spec fn spec_select(text: ChannelMatch, cat: ChannelMatch) -> Option<u64> {
    match text {
        ChannelMatch::HardMatch(Some(v)) => Some(v),
        ChannelMatch::SoftMatch(Some(v)) => Some(v),
        _ => match cat {
            ChannelMatch::HardMatch(Some(v)) => Some(v),
            ChannelMatch::SoftMatch(Some(v)) => Some(v),
            _ => None,
        },
    }
}

/// The whole fuzzy pass: scan every container once, then select across lanes.
pub open spec fn spec_find(ns: NamespaceV, q: Seq<char>) -> Option<u64> {
    let st = spec_scan(ns, q, ns.containers.len() as int);
    spec_select(st.text, st.cat)
}

fn vec_contains(v: &Vec<u64>, x: u64) -> (r: bool)
    ensures
        r == v@.contains(x),
{
    let mut i: usize = 0;
    while i < v.len()
        invariant
            i <= v.len(),
            forall|k: int| 0 <= k < i ==> v@[k] != x,
        decreases v.len() - i,
    {
        if v[i] == x {
            return true;
        }
        i += 1;
    }
    false
}

/// Index of the first container with the given identifier, if any.
fn lookup_idx(ns: &Namespace, id: u64) -> (r: Option<usize>)
    ensures
        r matches Some(j) ==> j < ns.containers@.len() && spec_lookup(ns@.containers, id)
            == Some(ns@.containers[j as int]),
        r is None ==> spec_lookup(ns@.containers, id) is None,
{
    let n = ns.containers.len();
    let mut i: usize = 0;
    proof {
        assert(ns@.containers.skip(0) =~= ns@.containers);
    }
    while i < n
        invariant
            i <= n,
            n == ns.containers@.len(),
            spec_lookup(ns@.containers, id) == spec_lookup(ns@.containers.skip(i as int), id),
            forall|k: int| 0 <= k < i ==> ns@.containers[k].id != id,
        decreases n - i,
    {
        proof {
            assert(ns@.containers.skip(i as int)[0] == ns@.containers[i as int]);
            assert(ns@.containers.skip(i as int).drop_first() =~= ns@.containers.skip(i + 1));
        }
        if ns.containers[i].id == id {
            return Some(i);
        }
        i += 1;
    }
    proof {
        assert(ns@.containers.skip(n as int) =~= Seq::<ContainerV>::empty());
    }
    None
}

/// The identifier a lane holds, if any, is the identifier of a container of
/// the namespace whose kind the lane folds: a channel for the text lane, a
/// category for the category lane.
pub open spec fn held_id_of_kind(m: ChannelMatch, ns: NamespaceV, kind: ContainerKind) -> bool {
    match m {
        ChannelMatch::HardMatch(Some(v)) => exists|j: int|
            0 <= j < ns.containers.len() && ns.containers[j].id == v && ns.containers[j].kind
                == kind,
        ChannelMatch::SoftMatch(Some(v)) => exists|j: int|
            0 <= j < ns.containers.len() && ns.containers[j].id == v && ns.containers[j].kind
                == kind,
        _ => true,
    }
}

/// Every concrete identifier a lane can hold after `i` steps belongs to some
/// container of the namespace, of the kind that lane folds.
proof fn lemma_scan_ids(ns: NamespaceV, q: Seq<char>, i: int)
    requires
        0 <= i <= ns.containers.len(),
    ensures
        held_id_of_kind(spec_scan(ns, q, i).text, ns, ContainerKind::Channel),
        held_id_of_kind(spec_scan(ns, q, i).cat, ns, ContainerKind::Category),
    decreases i,
{
    if i > 0 {
        lemma_scan_ids(ns, q, i - 1);
        let st = spec_scan(ns, q, i - 1);
        let c = ns.containers[i - 1];
        if c.kind is Channel {
            assert(exists|j: int|
                0 <= j < ns.containers.len() && ns.containers[j].id == c.id && ns.containers[j].kind
                    == ContainerKind::Channel) by {
                assert(ns.containers[i - 1].id == c.id);
            }
        }
        match c.parent_id {
            Some(pid) => {
                if !st.seen.contains(pid) {
                    match spec_lookup(ns.containers, pid) {
                        Some(p) => {
                            lemma_lookup_in(ns.containers, pid);
                        },
                        None => {},
                    }
                }
            },
            None => {},
        }
    }
}

proof fn lemma_lookup_in(s: Seq<ContainerV>, id: u64)
    requires
        spec_lookup(s, id) is Some,
    ensures
        exists|j: int| 0 <= j < s.len() && s[j] == spec_lookup(s, id).unwrap(),
        spec_lookup(s, id).unwrap().id == id,
    decreases s.len(),
{
    if s.len() > 0 {
        if s[0].id == id {
            assert(s[0] == spec_lookup(s, id).unwrap());
        } else {
            lemma_lookup_in(s.drop_first(), id);
            let j = choose|j: int|
                0 <= j < s.drop_first().len() && s.drop_first()[j] == spec_lookup(
                    s.drop_first(),
                    id,
                ).unwrap();
            assert(s[j + 1] == spec_lookup(s, id).unwrap());
        }
    }
}

/// Under unique identifiers, looking a container's own identifier up finds
/// exactly that container.
proof fn lemma_lookup_unique(s: Seq<ContainerV>, j: int)
    requires
        forall|a: int, b: int| 0 <= a < b < s.len() ==> s[a].id != s[b].id,
        0 <= j < s.len(),
    ensures
        spec_lookup(s, s[j].id) == Some(s[j]),
    decreases s.len(),
{
    if j > 0 {
        assert(s[0].id != s[j].id);
        assert(forall|a: int, b: int|
            0 <= a < b < s.drop_first().len() ==> s.drop_first()[a].id != s.drop_first()[b].id);
        lemma_lookup_unique(s.drop_first(), j - 1);
        assert(s.drop_first()[j - 1] == s[j]);
    }
}

/// The fuzzy pass over a namespace snapshot: lowercases the query, scans every
/// container once through both lanes, and selects across lanes.
pub fn find_channel_in_guild(guild: &Namespace, channel: &String) -> (r: Option<u64>)
    ensures
        r == spec_find(guild@, lower_of(channel@)),
{
    let mut text_match = ChannelMatch::NoMatch;
    let mut category_match = ChannelMatch::NoMatch;
    let mut seen_categories: Vec<u64> = Vec::new();
    let clean_name = lowercase(channel.as_str());
    let ghost q = lower_of(channel@);
    let n = guild.containers.len();
    let mut i: usize = 0;
    while i < n
        invariant
            i <= n,
            n == guild.containers@.len(),
            clean_name@ == q,
            text_match == spec_scan(guild@, q, i as int).text,
            category_match == spec_scan(guild@, q, i as int).cat,
            seen_categories@ == spec_scan(guild@, q, i as int).seen,
        decreases n - i,
    {
        let c = &guild.containers[i];
        proof {
            assert(guild@.containers[i as int] == guild.containers@[i as int]@);
        }
        match c.kind {
            ContainerKind::Channel => {
                text_match = channel_to_match(c, &text_match, &clean_name);
            },
            _ => {},
        }
        match c.parent_id {
            Some(pid) => {
                if !vec_contains(&seen_categories, pid) {
                    match lookup_idx(guild, pid) {
                        Some(j) => {
                            let p = &guild.containers[j];
                            match p.kind {
                                ContainerKind::Category => {
                                    category_match = channel_to_match(p, &category_match, &clean_name);
                                },
                                _ => {},
                            }
                            seen_categories.push(pid);
                        },
                        None => {},
                    }
                }
            },
            None => {},
        }
        i += 1;
        proof {
            assert(spec_scan(guild@, q, i as int) == spec_scan_step(
                spec_scan(guild@, q, i as int - 1),
                guild@,
                guild@.containers[i as int - 1],
                q,
            ));
        }
    }
    match (text_match, category_match) {
        (ChannelMatch::HardMatch(Some(val)), _) => Some(val),
        (ChannelMatch::SoftMatch(Some(val)), _) => Some(val),
        (_, ChannelMatch::HardMatch(Some(val))) => Some(val),
        (_, ChannelMatch::SoftMatch(Some(val))) => Some(val),
        _ => None,
    }
}

// ---------------------------------------------------------------------------
// The explicit-identifier mention form.
// ---------------------------------------------------------------------------

pub open spec fn is_digit(c: char) -> bool {
    48 <= c as int <= 57
}

/// The digit core of a mention token: an optional leading "<#" and an
/// optional trailing ">" are stripped, whatever is left must be digits.
pub open spec fn spec_mention_core(s: Seq<char>) -> Seq<char> {
    let a = if s.len() >= 2 && s[0] == '<' && s[1] == '#' {
        s.subrange(2, s.len() as int)
    } else {
        s
    };
    if a.len() >= 1 && a[a.len() - 1] == '>' {
        a.subrange(0, a.len() - 1)
    } else {
        a
    }
}

pub open spec fn spec_is_mention(s: Seq<char>) -> bool {
    let d = spec_mention_core(s);
    d.len() >= 1 && forall|i: int| 0 <= i < d.len() ==> is_digit(#[trigger] d[i])
}

pub open spec fn spec_digits_val(d: Seq<char>) -> nat
    decreases d.len(),
{
    if d.len() == 0 {
        0
    } else {
        (spec_digits_val(d.drop_last()) * 10 + (d.last() as int - 48)) as nat
    }
}

/// The identifier a mention token denotes; a value too large for an
/// identifier reads as zero, the fallback of a failed number parse.
pub open spec fn spec_mention_id(s: Seq<char>) -> u64 {
    let v = spec_digits_val(spec_mention_core(s));
    if v <= u64::MAX {
        v as u64
    } else {
        0
    }
}

/// Recognizes the explicit mention form and reads its identifier.
fn parse_mention(token: &str) -> (r: Option<u64>)
    ensures
        r is Some <==> spec_is_mention(token@),
        r matches Some(v) ==> v == spec_mention_id(token@),
{
    let n = token.unicode_len();
    let mut lo: usize = 0;
    let mut hi: usize = n;
    if n >= 2 && token.get_char(0) == '<' && token.get_char(1) == '#' {
        lo = 2;
    }
    if hi > lo && token.get_char(hi - 1) == '>' {
        hi = hi - 1;
    }
    proof {
        assert(spec_mention_core(token@) =~= token@.subrange(lo as int, hi as int));
    }
    if hi == lo {
        return None;
    }
    let mut i: usize = lo;
    let mut val: u64 = 0;
    let mut overflow: bool = false;
    while i < hi
        invariant
            lo <= i <= hi <= n,
            n == token@.len(),
            spec_mention_core(token@) == token@.subrange(lo as int, hi as int),
            forall|k: int| lo <= k < i ==> is_digit(#[trigger] token@[k]),
            !overflow ==> val == spec_digits_val(token@.subrange(lo as int, i as int)),
            overflow ==> spec_digits_val(token@.subrange(lo as int, i as int)) > u64::MAX,
        decreases hi - i,
    {
        let c = token.get_char(i);
        let cv = c as u32;
        if cv < 48 || cv > 57 {
            proof {
                assert(!is_digit(token@[i as int]));
                assert(spec_mention_core(token@)[i - lo] == token@[i as int]);
            }
            return None;
        }
        let d: u64 = (cv - 48) as u64;
        let ghost prefix = token@.subrange(lo as int, i as int);
        let ghost prefix2 = token@.subrange(lo as int, i + 1);
        proof {
            assert(prefix2.drop_last() =~= prefix);
            assert(prefix2.last() == token@[i as int]);
        }
        if !overflow {
            match val.checked_mul(10) {
                Some(x) => match x.checked_add(d) {
                    Some(y) => {
                        val = y;
                    },
                    None => {
                        overflow = true;
                    },
                },
                None => {
                    overflow = true;
                },
            }
        } else {
            proof {
                assert(spec_digits_val(prefix2) > u64::MAX);
            }
        }
        i += 1;
    }
    proof {
        assert(token@.subrange(lo as int, hi as int) =~= spec_mention_core(token@));
        assert(spec_is_mention(token@));
    }
    if overflow {
        Some(0)
    } else {
        Some(val)
    }
}

// ---------------------------------------------------------------------------
// Resolution of one reference token.
// ---------------------------------------------------------------------------

/// What a reference token resolves to within a namespace snapshot: a token in
/// the explicit mention form goes straight to the container it names, which
/// must exist in the snapshot and be a channel or a category; any other token
/// goes through the two-lane fuzzy scan, and the winning identifier is looked
/// up in the snapshot.
pub open spec fn spec_parse_channel(ns: NamespaceV, token: Seq<char>) -> Option<ContainerV> {
    if spec_is_mention(token) {
        match spec_lookup(ns.containers, spec_mention_id(token)) {
            Some(c) => if c.kind is Channel || c.kind is Category {
                Some(c)
            } else {
                None
            },
            None => None,
        }
    } else {
        match spec_find(ns, lower_of(token)) {
            Some(id) => spec_lookup(ns.containers, id),
            None => None,
        }
    }
}

proof fn lemma_lookup_exists(s: Seq<ContainerV>, id: u64)
    requires
        exists|j: int| 0 <= j < s.len() && s[j].id == id,
    ensures
        spec_lookup(s, id) is Some,
    decreases s.len(),
{
    if s.len() > 0 && s[0].id != id {
        let j = choose|j: int| 0 <= j < s.len() && s[j].id == id;
        assert(s.drop_first()[j - 1].id == id);
        lemma_lookup_exists(s.drop_first(), id);
    }
}

/// Resolves one free-text token against a namespace snapshot, by explicit
/// mention or by the fuzzy scan. `None` is the unresolvable case: no match,
/// an ambiguous match, an identifier the snapshot does not hold, or a
/// container of an unsupported kind.
pub fn parse_channel(guild: &Namespace, channel_arg: &String) -> (r: Option<Container>)
    ensures
        r is Some <==> spec_parse_channel(guild@, channel_arg@) is Some,
        r matches Some(c) ==> spec_parse_channel(guild@, channel_arg@) == Some(c@),
        guild@.wf() ==> (r matches Some(c) ==> c@.kind is Channel || c@.kind is Category),
{
    match parse_mention(channel_arg.as_str()) {
        Some(id) => match lookup_idx(guild, id) {
            Some(j) => {
                let c = &guild.containers[j];
                proof {
                    assert(guild@.containers[j as int] == guild.containers@[j as int]@);
                }
                match c.kind {
                    ContainerKind::Channel | ContainerKind::Category => Some(c.clone()),
                    ContainerKind::Other => None,
                }
            },
            None => None,
        },
        None => match find_channel_in_guild(guild, channel_arg) {
            Some(id) => {
                proof {
                    let q = lower_of(channel_arg@);
                    let st = spec_scan(guild@, q, guild@.containers.len() as int);
                    lemma_scan_ids(guild@, q, guild@.containers.len() as int);
                    assert(exists|j: int|
                        0 <= j < guild@.containers.len() && guild@.containers[j].id == id && (
                        guild@.containers[j].kind is Channel
                            || guild@.containers[j].kind is Category)) by {
                        let picked_text = match st.text {
                            ChannelMatch::HardMatch(Some(v)) => v == id,
                            ChannelMatch::SoftMatch(Some(v)) => v == id,
                            _ => false,
                        };
                        if picked_text {
                            let j = choose|j: int|
                                0 <= j < guild@.containers.len() && guild@.containers[j].id == id
                                    && guild@.containers[j].kind == ContainerKind::Channel;
                            assert(guild@.containers[j].id == id && guild@.containers[j].kind
                                is Channel);
                        } else {
                            let j = choose|j: int|
                                0 <= j < guild@.containers.len() && guild@.containers[j].id == id
                                    && guild@.containers[j].kind == ContainerKind::Category;
                            assert(guild@.containers[j].id == id && guild@.containers[j].kind
                                is Category);
                        }
                    }
                    let jw = choose|j: int|
                        0 <= j < guild@.containers.len() && guild@.containers[j].id == id && (
                        guild@.containers[j].kind is Channel
                            || guild@.containers[j].kind is Category);
                    assert(guild@.containers[jw].id == id);
                    lemma_lookup_exists(guild@.containers, id);
                    if guild@.wf() {
                        lemma_lookup_unique(guild@.containers, jw);
                    }
                }
                match lookup_idx(guild, id) {
                    Some(j) => {
                        proof {
                            assert(guild@.containers[j as int] == guild.containers@[j as int]@);
                        }
                        Some(guild.containers[j].clone())
                    },
                    None => {
                        proof {
                            assert(false);
                        }
                        None
                    },
                }
            },
            None => None,
        },
    }
}

// ---------------------------------------------------------------------------
// Cross-lane and within-lane tie-break laws.
// ---------------------------------------------------------------------------

proof fn lemma_scan_text_unique_hard(ns: NamespaceV, q: Seq<char>, i: int, h: int)
    requires
        0 <= i <= ns.containers.len(),
        0 <= h < ns.containers.len(),
        ns.containers[h].kind is Channel,
        lower_of(ns.containers[h].name) == q,
        forall|j: int|
            0 <= j < ns.containers.len() && j != h && (#[trigger] ns.containers[j]).kind is Channel
                ==> lower_of(ns.containers[j].name) != q,
    ensures
        i <= h ==> (spec_scan(ns, q, i).text is NoMatch || spec_scan(ns, q, i).text is SoftMatch),
        i > h ==> spec_scan(ns, q, i).text == ChannelMatch::HardMatch(Some(ns.containers[h].id)),
    decreases i,
{
    if i > 0 {
        lemma_scan_text_unique_hard(ns, q, i - 1, h);
    }
}

/// A single hard match in the text lane survives any number of soft or failed
/// matches around it and wins cross-lane selection: in any namespace holding
/// exactly one channel whose lowercased name equals the query, resolution
/// yields that channel's identifier, whatever categories and parent links the
/// namespace holds.
pub proof fn lemma_unique_hard_match_wins(ns: NamespaceV, q: Seq<char>, h: int)
    requires
        0 <= h < ns.containers.len(),
        ns.containers[h].kind is Channel,
        lower_of(ns.containers[h].name) == q,
        forall|j: int|
            0 <= j < ns.containers.len() && j != h && (#[trigger] ns.containers[j]).kind is Channel
                ==> lower_of(ns.containers[j].name) != q,
    ensures
        spec_find(ns, q) == Some(ns.containers[h].id),
{
    lemma_scan_text_unique_hard(ns, q, ns.containers.len() as int, h);
}

/// A hard channel-name match beats a soft category-name match across lanes:
/// in any namespace holding exactly one channel whose lowercased name is
/// "general" — a category named "general-stuff", soft-matching in the
/// category lane, may well sit beside it — the lowercased token "general"
/// resolves to the channel.
pub proof fn lemma_hard_match_beats_soft(ns: NamespaceV, h: int, k: int)
    requires
        0 <= h < ns.containers.len(),
        ns.containers[h].kind is Channel,
        lower_of(ns.containers[h].name) == "general"@,
        forall|j: int|
            0 <= j < ns.containers.len() && j != h && (#[trigger] ns.containers[j]).kind is Channel
                ==> lower_of(ns.containers[j].name) != "general"@,
        0 <= k < ns.containers.len(),
        ns.containers[k].kind is Category,
        lower_of(ns.containers[k].name) == "general-stuff"@,
    ensures
        spec_find(ns, "general"@) == Some(ns.containers[h].id),
{
    lemma_unique_hard_match_wins(ns, "general"@, h);
}

/// Two soft matches of equal strength within the text lane collapse to an
/// ambiguity that resolution cannot recover from when no category lane match
/// exists: two channels whose lowercased names are "dev-chat" and "dev-ops",
/// with no parent categories, leave the lowercased token "dev" unresolved.
pub proof fn lemma_soft_ambiguity(ns: NamespaceV, a: ContainerV, b: ContainerV)
    requires
        ns.containers == seq![a, b] || ns.containers == seq![b, a],
        a.kind is Channel,
        b.kind is Channel,
        a.parent_id is None,
        b.parent_id is None,
        lower_of(a.name) == "dev-chat"@,
        lower_of(b.name) == "dev-ops"@,
    ensures
        spec_find(ns, "dev"@) is None,
{
    reveal_strlit("dev");
    reveal_strlit("dev-chat");
    reveal_strlit("dev-ops");
    let q = "dev"@;
    assert(("dev"@).len() == 3);
    assert(("dev-chat"@).len() == 8);
    assert(("dev-ops"@).len() == 7);
    assert(lower_of(a.name) != q);
    assert(lower_of(b.name) != q);
    assert(spec_contains_at(lower_of(a.name), q, 0)) by {
        assert(lower_of(a.name).subrange(0, 3) =~= q);
    }
    assert(spec_contains_at(lower_of(b.name), q, 0)) by {
        assert(lower_of(b.name).subrange(0, 3) =~= q);
    }
    assert(spec_scan(ns, q, 0) == spec_scan_init());
    assert(spec_scan(ns, q, 1) == spec_scan_step(spec_scan(ns, q, 0), ns, ns.containers[0], q));
    assert(spec_scan(ns, q, 2) == spec_scan_step(spec_scan(ns, q, 1), ns, ns.containers[1], q));
    let st2 = spec_scan(ns, q, 2);
    assert(st2.text == ChannelMatch::SoftMatch(None::<u64>));
    assert(st2.cat == ChannelMatch::NoMatch);
}

} // verus!
