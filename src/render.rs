//! Text for a finalized series.
use vstd::prelude::*;
use crate::reports::{int_text, push_int};
use crate::series::{TeamSlot, VoteType};
use crate::session::{push_step_line, sides_resolved, step_line, MatchConfig, ResolvedMap, Side, Team};

verus! {

/// The lower-case form of a string, as `str::to_lowercase` gives it.
pub uninterp spec fn lower_of(s: Seq<char>) -> Seq<char>;

/// Relies on `str::to_lowercase`: its result depends on the characters of
/// the string alone.
#[verifier::external_body]
fn lowercase(s: &str) -> (r: String)
    ensures
        r@ == lower_of(s@),
{
    s.to_lowercase()
}

/// The decimal digit of `d` (below ten).
pub open spec fn digit_char(d: nat) -> char {
    "0123456789"@[d as int]
}

/// The decimal notation of `n`.
pub open spec fn decimal(n: nat) -> Seq<char>
    decreases n,
{
    if n < 10 {
        seq![digit_char(n)]
    } else {
        decimal(n / 10).push(digit_char(n % 10))
    }
}

/// Appends the decimal notation of `n`.
pub fn push_decimal(out: &mut String, n: u64)
    ensures
        final(out)@ == old(out)@ + decimal(n as nat),
    decreases n,
{
    if n >= 10 {
        push_decimal(out, n / 10);
    }
    let d = (n % 10) as usize;
    proof {
        reveal_strlit("0123456789");
    }
    let digits = "0123456789";
    let one = digits.substring_char(d, d + 1);
    assert(one@ =~= seq![digit_char(d as nat)]);
    out.append(one);
    assert(out@ =~= old(out)@ + decimal(n as nat));
}

/// The role of the team in `slot`.
pub open spec fn slot_role(slot: TeamSlot, team_one: Team, team_two: Team) -> u64 {
    match slot {
        TeamSlot::TeamOne => team_one.role,
        TeamSlot::TeamTwo => team_two.role,
    }
}

/// The role of the team that starts a map on `side`.
pub open spec fn side_role(m: ResolvedMap, side: Side, team_one: Team, team_two: Team) -> u64 {
    if m.start_side_team_one == Some(side) {
        team_one.role
    } else {
        team_two.role
    }
}

/// The block for the map at 1-based position `pos`.
pub open spec fn map_block(pos: nat, m: ResolvedMap, team_one: Team, team_two: Team) -> Seq<char> {
    "**"@ + decimal(pos) + ". "@ + lower_of(m.map.name@) + "** - picked by: <@&"@ + decimal(
        slot_role(m.picked_by, team_one, team_two) as nat,
    ) + ">\n    _Defense start:_ <@&"@ + decimal(
        side_role(m, Side::CounterTerrorist, team_one, team_two) as nat,
    ) + ">\n    _Attack start:_ <@&"@ + decimal(
        side_role(m, Side::Terrorist, team_one, team_two) as nat,
    ) + ">\n\n"@
}

/// The blocks of the first `n` maps.
pub open spec fn map_blocks(maps: Seq<ResolvedMap>, n: nat, team_one: Team, team_two: Team) -> Seq<
    char,
>
    decreases n,
{
    if n == 0 || n > maps.len() {
        Seq::empty()
    } else {
        map_blocks(maps, (n - 1) as nat, team_one, team_two) + map_block(
            n,
            maps[n - 1],
            team_one,
            team_two,
        )
    }
}

/// Appends the block of one map.
fn push_map_block(out: &mut String, pos: u64, m: &ResolvedMap, team_one: &Team, team_two: &Team)
    ensures
        final(out)@ == old(out)@ + map_block(pos as nat, *m, *team_one, *team_two),
{
    let picked = match m.picked_by {
        TeamSlot::TeamOne => team_one.role,
        TeamSlot::TeamTwo => team_two.role,
    };
    let ct = if m.start_side_team_one == Some(Side::CounterTerrorist) {
        team_one.role
    } else {
        team_two.role
    };
    let t = if m.start_side_team_one == Some(Side::Terrorist) {
        team_one.role
    } else {
        team_two.role
    };
    let name = lowercase(m.map.name.as_str());
    out.append("**");
    push_decimal(out, pos);
    out.append(". ");
    out.append(name.as_str());
    out.append("** - picked by: <@&");
    push_decimal(out, picked);
    out.append(">\n    _Defense start:_ <@&");
    push_decimal(out, ct);
    out.append(">\n    _Attack start:_ <@&");
    push_decimal(out, t);
    out.append(">\n\n");
    assert(out@ =~= old(out)@ + map_block(pos as nat, *m, *team_one, *team_two));
}

/// The closing message of a setup: for each map in order its position, its
/// lower-case name, the role of the team that picked it and the roles of the
/// teams that start on defense (counter-terrorist) and on attack
/// (terrorist).
pub fn eos_printout(config: &MatchConfig, team_one: &Team, team_two: &Team) -> (r: String)
    requires
        forall|i: int| 0 <= i < config.maps@.len() ==> sides_resolved(#[trigger] config.maps@[i]),
    ensures
        r@ == "\n\nSetup is completed. GLHF!\n\n"@ + map_blocks(
            config.maps@,
            config.maps@.len(),
            *team_one,
            *team_two,
        ),
{
    let mut out = String::from_str("\n\nSetup is completed. GLHF!\n\n");
    let ghost head = out@;
    let mut i: usize = 0;
    while i < config.maps.len()
        invariant
            i <= config.maps@.len(),
            out@ == head + map_blocks(config.maps@, i as nat, *team_one, *team_two),
        decreases config.maps@.len() - i,
    {
        push_map_block(&mut out, (i + 1) as u64, &config.maps[i], team_one, team_two);
        assert(out@ =~= head + map_blocks(config.maps@, (i + 1) as nat, *team_one, *team_two));
        i = i + 1;
    }
    out
}

/// One stored step of a setup: its kind, the role of the acting team and
/// the map it named.
#[derive(Debug, Clone)]
pub struct MatchSetupStep {
    pub match_id: i32,
    pub step_type: VoteType,
    pub team_role_id: i64,
    pub map: Option<String>,
}

/// A scheduled match as the listings show it.
#[derive(Debug, Clone)]
pub struct ScheduledMatch {
    pub id: i32,
    pub team_one_role_id: i64,
    pub team_two_role_id: i64,
    pub team_one_name: String,
    pub team_two_name: String,
    pub scheduled_time_str: Option<String>,
    pub note: Option<String>,
}

/// The rows for the first `n` steps, with lower-case map names; `None` when
/// a step names no map.
pub open spec fn setup_rows(steps: Seq<MatchSetupStep>, m: ScheduledMatch, n: nat) -> Option<Seq<char>>
    decreases n,
{
    if n == 0 || n > steps.len() {
        Some(Seq::empty())
    } else {
        let v = steps[n - 1];
        match (setup_rows(steps, m, (n - 1) as nat), v.map) {
            (Some(prev), Some(map)) => Some(
                prev + step_line(
                    v.step_type,
                    if m.team_one_role_id == v.team_role_id {
                        m.team_one_name@
                    } else {
                        m.team_two_name@
                    },
                    lower_of(map@),
                ),
            ),
            _ => None,
        }
    }
}

proof fn lemma_setup_rows_none(steps: Seq<MatchSetupStep>, m: ScheduledMatch, k: nat, n: nat)
    requires
        0 < k <= n <= steps.len(),
        setup_rows(steps, m, k) is None,
    ensures
        setup_rows(steps, m, n) is None,
    decreases n - k,
{
    if n > k {
        lemma_setup_rows_none(steps, m, k, (n - 1) as nat);
    }
}

/// The veto record of a setup as a diff block, with lower-case map names;
/// a fixed message when there are no steps, `None` when a step names no
/// map.
pub fn print_veto_info(setup_info: &Vec<MatchSetupStep>, m: &ScheduledMatch) -> (r: Option<String>)
    ensures
        setup_info@.len() == 0 ==> r is Some && r->Some_0@ == "_This match has no veto info yet_"@,
        setup_info@.len() > 0 ==> match setup_rows(setup_info@, *m, setup_info@.len()) {
            Some(rows) => r is Some && r->Some_0@ == "```diff\n"@ + rows + "```"@,
            None => r is None,
        },
{
    if setup_info.len() == 0 {
        return Some(String::from_str("_This match has no veto info yet_"));
    }
    let mut rows = String::new();
    let mut i: usize = 0;
    while i < setup_info.len()
        invariant
            i <= setup_info@.len(),
            setup_rows(setup_info@, *m, i as nat) == Some(rows@),
        decreases setup_info@.len() - i,
    {
        let v = &setup_info[i];
        let map = match &v.map {
            Some(name) => lowercase(name.as_str()),
            None => {
                proof {
                    lemma_setup_rows_none(setup_info@, *m, (i + 1) as nat, setup_info@.len());
                }
                return None;
            },
        };
        let team = if m.team_one_role_id == v.team_role_id {
            m.team_one_name.as_str()
        } else {
            m.team_two_name.as_str()
        };
        push_step_line(&mut rows, v.step_type, team, map.as_str());
        i = i + 1;
    }
    let mut out = String::from_str("```diff\n");
    out.append(rows.as_str());
    out.append("```");
    Some(out)
}

/// The listing line of a scheduled match.
pub open spec fn match_info_text(m: ScheduledMatch, show_id: bool) -> Seq<char> {
    "- "@ + m.team_one_name@ + " vs "@ + m.team_two_name@ + (match m.scheduled_time_str {
        Some(t) => " > Scheduled: `"@ + t@ + "`"@,
        None => Seq::empty(),
    }) + (match m.note {
        Some(n) => " `"@ + n@ + "`"@,
        None => Seq::empty(),
    }) + "\n"@ + (if show_id {
        "    _Match ID:_ `"@ + int_text(m.id as int) + "\n`"@
    } else {
        Seq::empty()
    })
}

/// The listing line of a scheduled match: the two teams, the scheduled time
/// and the note when there are, and the id when asked for.
pub fn print_match_info(m: &ScheduledMatch, show_id: bool) -> (r: String)
    ensures
        r@ == match_info_text(*m, show_id),
{
    let mut row = String::from_str("- ");
    row.append(m.team_one_name.as_str());
    row.append(" vs ");
    row.append(m.team_two_name.as_str());
    if let Some(schedule) = &m.scheduled_time_str {
        row.append(" > Scheduled: `");
        row.append(schedule.as_str());
        row.append("`");
    }
    if let Some(note) = &m.note {
        row.append(" `");
        row.append(note.as_str());
        row.append("`");
    }
    row.append("\n");
    if show_id {
        row.append("    _Match ID:_ `");
        push_int(&mut row, m.id as i64);
        row.append("\n`");
    }
    assert(row@ =~= match_info_text(*m, show_id));
    row
}

} // verus!
