//! Series types, step kinds and the fixed veto/pick templates.
use vstd::prelude::*;

verus! {

/// The length of a series: best of one, three or five maps.
#[derive(Debug, Clone, Copy, PartialEq, Eq, PartialOrd, Ord, Hash, Structural)]
pub enum SeriesType {
    Bo1,
    Bo3,
    Bo5,
}

/// What one step of the template does with a map.
#[derive(Debug, Clone, Copy, PartialEq, Eq, PartialOrd, Ord, Hash, Structural)]
pub enum VoteType {
    Veto,
    Pick,
}

/// A role within a series, bound to a concrete team when a session starts.
#[derive(Debug, Clone, Copy, PartialEq, Eq, Hash, Structural)]
pub enum TeamSlot {
    TeamOne,
    TeamTwo,
}

/// One entry of a template: which kind of step, and which team acts.
#[derive(Debug, Clone, Copy, PartialEq, Eq, Hash, Structural)]
pub struct StepTemplateEntry {
    pub kind: VoteType,
    pub actor: TeamSlot,
}

/// The template entry of this kind and actor.
pub open spec fn entry(kind: VoteType, actor: TeamSlot) -> StepTemplateEntry {
    StepTemplateEntry { kind, actor }
}

/// The fixed template of each series type.
pub open spec fn template_of(st: SeriesType) -> Seq<StepTemplateEntry> {
    match st {
        SeriesType::Bo1 => seq![
            entry(VoteType::Veto, TeamSlot::TeamTwo),
            entry(VoteType::Veto, TeamSlot::TeamOne),
            entry(VoteType::Veto, TeamSlot::TeamTwo),
            entry(VoteType::Veto, TeamSlot::TeamOne),
            entry(VoteType::Veto, TeamSlot::TeamTwo),
            entry(VoteType::Pick, TeamSlot::TeamOne),
        ],
        SeriesType::Bo3 => seq![
            entry(VoteType::Veto, TeamSlot::TeamOne),
            entry(VoteType::Veto, TeamSlot::TeamTwo),
            entry(VoteType::Pick, TeamSlot::TeamOne),
            entry(VoteType::Pick, TeamSlot::TeamTwo),
            entry(VoteType::Veto, TeamSlot::TeamTwo),
            entry(VoteType::Pick, TeamSlot::TeamOne),
        ],
        SeriesType::Bo5 => seq![
            entry(VoteType::Veto, TeamSlot::TeamOne),
            entry(VoteType::Veto, TeamSlot::TeamTwo),
            entry(VoteType::Pick, TeamSlot::TeamOne),
            entry(VoteType::Pick, TeamSlot::TeamTwo),
            entry(VoteType::Pick, TeamSlot::TeamOne),
            entry(VoteType::Pick, TeamSlot::TeamTwo),
            entry(VoteType::Pick, TeamSlot::TeamOne),
        ],
    }
}

/// Number of steps in the template of a series type.
pub open spec fn step_count(st: SeriesType) -> nat {
    match st {
        SeriesType::Bo1 => 6,
        SeriesType::Bo3 => 6,
        SeriesType::Bo5 => 7,
    }
}

/// Number of maps played in a series of this type.
pub open spec fn maps_played(st: SeriesType) -> nat {
    match st {
        SeriesType::Bo1 => 1,
        SeriesType::Bo3 => 3,
        SeriesType::Bo5 => 5,
    }
}

/// Number of Pick entries among the steps.
pub open spec fn pick_count(t: Seq<StepTemplateEntry>) -> nat
    decreases t.len(),
{
    if t.len() == 0 {
        0
    } else {
        pick_count(t.drop_last()) + if t.last().kind == VoteType::Pick {
            1nat
        } else {
            0nat
        }
    }
}

/// The team that is not `slot`.
pub open spec fn other_slot(slot: TeamSlot) -> TeamSlot {
    match slot {
        TeamSlot::TeamOne => TeamSlot::TeamTwo,
        TeamSlot::TeamTwo => TeamSlot::TeamOne,
    }
}

/// The lower-case name of a series type.
pub open spec fn series_name(st: SeriesType) -> Seq<char> {
    match st {
        SeriesType::Bo1 => "bo1"@,
        SeriesType::Bo3 => "bo3"@,
        SeriesType::Bo5 => "bo5"@,
    }
}

/// Every template has the tabulated number of steps, and as many Pick
/// entries as the series plays maps.
pub proof fn lemma_template_shape(st: SeriesType)
    ensures
        template_of(st).len() == step_count(st),
        pick_count(template_of(st)) == maps_played(st),
{
    let t = template_of(st);
    reveal_with_fuel(pick_count, 8);
    match st {
        SeriesType::Bo1 => {
            assert(t.drop_last() =~= t.subrange(0, 5));
            assert(t.drop_last().drop_last() =~= t.subrange(0, 4));
            assert(t.drop_last().drop_last().drop_last() =~= t.subrange(0, 3));
            assert(t.subrange(0, 3).drop_last() =~= t.subrange(0, 2));
            assert(t.subrange(0, 2).drop_last() =~= t.subrange(0, 1));
            assert(t.subrange(0, 1).drop_last() =~= t.subrange(0, 0));
        },
        SeriesType::Bo3 => {
            assert(t.drop_last() =~= t.subrange(0, 5));
            assert(t.drop_last().drop_last() =~= t.subrange(0, 4));
            assert(t.drop_last().drop_last().drop_last() =~= t.subrange(0, 3));
            assert(t.subrange(0, 3).drop_last() =~= t.subrange(0, 2));
            assert(t.subrange(0, 2).drop_last() =~= t.subrange(0, 1));
            assert(t.subrange(0, 1).drop_last() =~= t.subrange(0, 0));
        },
        SeriesType::Bo5 => {
            assert(t.drop_last() =~= t.subrange(0, 6));
            assert(t.drop_last().drop_last() =~= t.subrange(0, 5));
            assert(t.subrange(0, 5).drop_last() =~= t.subrange(0, 4));
            assert(t.subrange(0, 4).drop_last() =~= t.subrange(0, 3));
            assert(t.subrange(0, 3).drop_last() =~= t.subrange(0, 2));
            assert(t.subrange(0, 2).drop_last() =~= t.subrange(0, 1));
            assert(t.subrange(0, 1).drop_last() =~= t.subrange(0, 0));
        },
    }
}

/// Produces the fixed template of a series type.
pub fn generate(series_type: SeriesType) -> (r: Vec<StepTemplateEntry>)
    ensures
        r@ == template_of(series_type),
{
    let veto_one = StepTemplateEntry { kind: VoteType::Veto, actor: TeamSlot::TeamOne };
    let veto_two = StepTemplateEntry { kind: VoteType::Veto, actor: TeamSlot::TeamTwo };
    let pick_one = StepTemplateEntry { kind: VoteType::Pick, actor: TeamSlot::TeamOne };
    let pick_two = StepTemplateEntry { kind: VoteType::Pick, actor: TeamSlot::TeamTwo };
    let r = match series_type {
        SeriesType::Bo1 => vec![veto_two, veto_one, veto_two, veto_one, veto_two, pick_one],
        SeriesType::Bo3 => vec![veto_one, veto_two, pick_one, pick_two, veto_two, pick_one],
        SeriesType::Bo5 => vec![veto_one, veto_two, pick_one, pick_two, pick_one, pick_two, pick_one],
    };
    assert(r@ =~= template_of(series_type));
    r
}

/// Whether two strings hold the same characters.
pub fn same_text(a: &str, b: &str) -> (r: bool)
    ensures
        r == (a@ == b@),
{
    let n = a.unicode_len();
    if n != b.unicode_len() {
        return false;
    }
    let mut i: usize = 0;
    while i < n
        invariant
            n == a@.len(),
            n == b@.len(),
            i <= n,
            a@.subrange(0, i as int) == b@.subrange(0, i as int),
        decreases n - i,
    {
        if a.get_char(i) != b.get_char(i) {
            return false;
        }
        assert(a@.subrange(0, i + 1) =~= a@.subrange(0, i as int).push(a@[i as int]));
        assert(b@.subrange(0, i + 1) =~= b@.subrange(0, i as int).push(b@[i as int]));
        i = i + 1;
    }
    assert(a@ =~= a@.subrange(0, n as int));
    assert(b@ =~= b@.subrange(0, n as int));
    true
}

impl SeriesType {
    /// The lower-case name: "bo1", "bo3" or "bo5".
    pub fn name(&self) -> (r: &'static str)
        ensures
            r@ == series_name(*self),
    {
        match self {
            SeriesType::Bo1 => "bo1",
            SeriesType::Bo3 => "bo3",
            SeriesType::Bo5 => "bo5",
        }
    }

    /// Reads a series type from its lower-case name.
    pub fn parse(input: &str) -> (r: Option<SeriesType>)
        ensures
            r == (if input@ == series_name(SeriesType::Bo1) {
                Some(SeriesType::Bo1)
            } else if input@ == series_name(SeriesType::Bo3) {
                Some(SeriesType::Bo3)
            } else if input@ == series_name(SeriesType::Bo5) {
                Some(SeriesType::Bo5)
            } else {
                None
            }),
    {
        if same_text(input, "bo1") {
            Some(SeriesType::Bo1)
        } else if same_text(input, "bo3") {
            Some(SeriesType::Bo3)
        } else if same_text(input, "bo5") {
            Some(SeriesType::Bo5)
        } else {
            None
        }
    }

    /// The number of maps played in a series of this type.
    pub fn maps_played(&self) -> (r: usize)
        ensures
            r == maps_played(*self),
    {
        match self {
            SeriesType::Bo1 => 1,
            SeriesType::Bo3 => 3,
            SeriesType::Bo5 => 5,
        }
    }
}

impl std::str::FromStr for SeriesType {
    type Err = ();

    fn from_str(input: &str) -> Result<SeriesType, ()> {
        match SeriesType::parse(input) {
            Some(t) => Ok(t),
            None => Err(()),
        }
    }
}

impl VoteType {
    /// "Veto" or "Pick".
    pub fn label(&self) -> (r: &'static str)
        ensures
            r@ == (match *self {
                VoteType::Veto => "Veto"@,
                VoteType::Pick => "Pick"@,
            }),
    {
        match self {
            VoteType::Veto => "Veto",
            VoteType::Pick => "Pick",
        }
    }
}

impl TeamSlot {
    /// The other team of the series.
    pub fn other(&self) -> (r: TeamSlot)
        ensures
            r == other_slot(*self),
    {
        match self {
            TeamSlot::TeamOne => TeamSlot::TeamTwo,
            TeamSlot::TeamTwo => TeamSlot::TeamOne,
        }
    }
}

} // verus!
