use vstd::prelude::*;

use crate::damage::{damage_decodes, on_damage};
use crate::encounter::{is_reset_of, is_soft_reset_of, split_encounter, worth_keeping};
use crate::handlers::{
    on_counterattack, on_death, on_new_npc, on_new_pc, on_skill_start, sat, upsert,
};
use crate::model::{
    find_entity, kept, lemma_index_of, lemma_kept, lemma_take_put, lemma_update_same_name,
    names_distinct, put_entity, retain_marked, take_entity, Encounter, Entity, EntityType,
    MostDamageTakenEntity, RaidResult,
};
use crate::reference::ReferenceData;
use crate::text::{field_i32_opt, i32_text, is_text, owned, split_fields, split_on, trim_text, trimmed};

verus! {

/// The kinds of record a line can carry, by their numeric code.
#[derive(Clone, Copy, Debug, PartialEq, Eq, Structural)]
pub enum RecordKind {
    Message,
    InitEnv,
    PhaseTransition,
    NewPc,
    NewNpc,
    Death,
    SkillStart,
    SkillStage,
    Damage,
    Heal,
    Buff,
    CounterAttack,
}

pub open spec fn kind_of(code: i32) -> Option<RecordKind> {
    if code == 0 {
        Some(RecordKind::Message)
    } else if code == 1 {
        Some(RecordKind::InitEnv)
    } else if code == 2 {
        Some(RecordKind::PhaseTransition)
    } else if code == 3 {
        Some(RecordKind::NewPc)
    } else if code == 4 {
        Some(RecordKind::NewNpc)
    } else if code == 5 {
        Some(RecordKind::Death)
    } else if code == 6 {
        Some(RecordKind::SkillStart)
    } else if code == 7 {
        Some(RecordKind::SkillStage)
    } else if code == 8 {
        Some(RecordKind::Damage)
    } else if code == 9 {
        Some(RecordKind::Heal)
    } else if code == 10 {
        Some(RecordKind::Buff)
    } else if code == 12 {
        Some(RecordKind::CounterAttack)
    } else {
        None
    }
}

pub fn record_kind(code: i32) -> (r: Option<RecordKind>)
    ensures
        r == kind_of(code),
{
    if code == 0 {
        Some(RecordKind::Message)
    } else if code == 1 {
        Some(RecordKind::InitEnv)
    } else if code == 2 {
        Some(RecordKind::PhaseTransition)
    } else if code == 3 {
        Some(RecordKind::NewPc)
    } else if code == 4 {
        Some(RecordKind::NewNpc)
    } else if code == 5 {
        Some(RecordKind::Death)
    } else if code == 6 {
        Some(RecordKind::SkillStart)
    } else if code == 7 {
        Some(RecordKind::SkillStage)
    } else if code == 8 {
        Some(RecordKind::Damage)
    } else if code == 9 {
        Some(RecordKind::Heal)
    } else if code == 10 {
        Some(RecordKind::Buff)
    } else if code == 12 {
        Some(RecordKind::CounterAttack)
    } else {
        None
    }
}

/// What the caller of a live feed has to do after a line.
#[derive(Clone, Copy, Debug, PartialEq, Eq, Structural)]
pub enum Notice {
    /// Nothing.
    Quiet,
    /// Tell the sink of a zone change.
    ZoneChange,
    /// Let the trailing records of the old zone arrive, then soft-reset the
    /// encounter and tell the sink of a zone change.
    SettleThenZoneChange,
    /// Tell the sink of a phase transition with this result.
    PhaseTransition(RaidResult),
}

pub open spec fn raid_result_of(code: i32) -> RaidResult {
    if code == 0 {
        RaidResult::RAID_RESULT
    } else if code == 1 {
        RaidResult::GUARDIAN_DEAD
    } else if code == 2 {
        RaidResult::RAID_END
    } else {
        RaidResult::UNKNOWN
    }
}

/// Every encounter a collector holds is well formed.
pub open spec fn all_wf(encs: Option<Vec<Encounter>>) -> bool {
    match encs {
        Some(v) => forall|j: int| 0 <= j < v@.len() ==> (#[trigger] v@[j]).wf(),
        None => true,
    }
}

/// What a phase-transition record does, as `on_phase_transition` states it.
pub open spec fn phase_handled(oe: Option<Vec<Encounter>>, fe: Option<Vec<Encounter>>, oreset: bool, freset: bool, o: Encounter, f: Encounter, line: Seq<String>, r: Notice) -> bool {
    &&& (all_wf(oe) ==> all_wf(fe))
    &&& (f.wf())
    &&& (i32_text(line[2]@) is None ==> r == Notice::Quiet && f == o
        && freset == oreset && fe == oe)
    &&& (i32_text(line[2]@) is Some ==> {
        &&& r == Notice::PhaseTransition(raid_result_of(i32_text(line[2]@)->0))
        &&& (oe) is None ==> freset && f == Encounter {
            reset: true,
            ..o
        } && (fe) is None
        &&& (oe) is Some ==> freset == oreset
            && is_soft_reset_of(f, o)
            && (fe) is Some
            && (fe)->0@ == if worth_keeping(o) {
                (oe)->0@.push(o)
            } else {
                (oe)->0@
            }
    })
}

/// Handles a phase-transition record, whose third field is the raid result.
/// In a live feed (no collector) the reset is only marked pending; in a
/// replay the encounter is split and soft-reset.
pub fn on_phase_transition(
    encounters: &mut Option<Vec<Encounter>>,
    reset: &mut bool,
    encounter: &mut Encounter,
    line: &Vec<String>,
) -> (r: Notice)
    requires
        old(encounter).wf(),
        line@.len() >= 3,
    ensures
        phase_handled(*old(encounters), *final(encounters), *old(reset), *final(reset), *old(encounter), *final(encounter), line@, r),
{
    let code = match field_i32_opt(&line[2]) {
        Some(c) => c,
        None => {
            return Notice::Quiet;
        },
    };
    let result = if code == 0 {
        RaidResult::RAID_RESULT
    } else if code == 1 {
        RaidResult::GUARDIAN_DEAD
    } else if code == 2 {
        RaidResult::RAID_END
    } else {
        RaidResult::UNKNOWN
    };
    if encounters.is_none() {
        *reset = true;
        encounter.reset = true;
    } else {
        split_encounter(encounters, encounter, true);
    }
    Notice::PhaseTransition(result)
}

/// Marks the entities a live zone change keeps: the local player and those
/// that dealt damage.
pub open spec fn zone_marks(es: Seq<Entity>, local: Seq<char>) -> Seq<bool> {
    Seq::new(es.len(), |i: int| es[i].name@ == local || es[i].damage_stats.damage_dealt > 0)
}

/// `m` is `o` after a zone change gave the local player the id `id` at `ts`:
/// the local player's record takes the id, or, when there is none, a player
/// named "You" becomes the local player.
pub open spec fn local_id_set(o: Encounter, m: Encounter, id: Seq<char>, ts: i64) -> bool {
    &&& m.wf()
    &&& crate::handlers::same_stats(m, o)
    &&& m.current_boss_name == o.current_boss_name
    &&& if o.has(o.local_player@) {
        let lp = o.local_player@;
        let p = o.get(lp);
        let e = m.get(lp);
        &&& m.local_player == o.local_player
        &&& m.entities@ == o.entities@.update(crate::model::index_of(o.entities@, lp), e)
        &&& e == (Entity { id: e.id, last_update: ts, ..p })
        &&& e.id@ == id
    } else {
        let e = m.get("You"@);
        &&& m.local_player@ == "You"@
        &&& crate::handlers::upserted(o.entities@, m.entities@, "You"@, e)
        &&& e.id@ == id
        &&& e.entity_type == EntityType::PLAYER
        &&& e.last_update == ts
        &&& e.npc_id == 0 && e.class_id == 0 && e.class@.len() == 0 && e.gear_score == 0
        &&& e.current_hp == 0 && e.max_hp == 0 && !e.is_dead
        &&& e.is_blank()
    }
}

/// What an init-env record does, as `on_init_env` states it.
pub open spec fn init_env_handled(oe: Option<Vec<Encounter>>, fe: Option<Vec<Encounter>>, o: Encounter, f: Encounter, timestamp: i64, line: Seq<String>, r: Notice) -> bool {
    &&& (all_wf(oe) ==> all_wf(fe))
    &&& (f.wf())
    &&& ((fe) is Some <==> (oe) is Some)
    &&& (line[2]@.len() == 0 ==> r == Notice::Quiet && f == o
        && fe == oe)
    &&& (line[2]@.len() > 0 && (oe) is None ==> {
        &&& r == Notice::SettleThenZoneChange
        &&& exists|mid: Encounter| {
            &&& local_id_set(o, mid, line[2]@, timestamp)
            &&& f.entities@ == kept(mid.entities@, zone_marks(mid.entities@, mid.local_player@))
            &&& f.current_boss_name@.len() == 0
            &&& f.local_player == mid.local_player
            &&& crate::handlers::same_stats(f, mid)
        }
        &&& f.has(f.local_player@)
        &&& f.get(f.local_player@).id@ == line[2]@
        &&& forall|i: int| 0 <= i < f.entities@.len() ==>
            (#[trigger] f.entities@[i]).name@ == f.local_player@
            || f.entities@[i].damage_stats.damage_dealt > 0
    })
    &&& (line[2]@.len() > 0 && (oe) is Some ==> {
        &&& r == Notice::ZoneChange
        &&& exists|mid: Encounter| {
            &&& local_id_set(o, mid, line[2]@, timestamp)
            &&& mid.has(mid.local_player@)
            &&& mid.get(mid.local_player@).id@ == line[2]@
            &&& is_reset_of(f, mid)
            &&& (fe)->0@ == if worth_keeping(mid) {
                (oe)->0@.push(mid)
            } else {
                (oe)->0@
            }
        }
    })
}

/// Handles an init-env record (a zone change), whose third field is the
/// local player's new id. The local player takes the id, or a player named
/// "You" is made for it. In a replay the encounter is then split and reset;
/// in a live feed entities that are neither the local player nor dealt
/// damage are dropped, the boss is cleared, and the caller is to let the
/// zone settle and soft-reset.
pub fn on_init_env(
    encounters: &mut Option<Vec<Encounter>>,
    encounter: &mut Encounter,
    timestamp: i64,
    line: &Vec<String>,
) -> (r: Notice)
    requires
        old(encounter).wf(),
        line@.len() >= 3,
    ensures
        init_env_handled(*old(encounters), *final(encounters), *old(encounter), *final(encounter), timestamp, line@, r),
{
    let player_id = &line[2];
    if player_id.as_str().is_empty() {
        return Notice::Quiet;
    }
    match find_entity(&encounter.entities, &encounter.local_player) {
        Some(i) => {
            proof {
                lemma_index_of(encounter.entities@, i as int);
            }
            let mut p = take_entity(&mut encounter.entities, i);
            p.id = player_id.clone();
            p.last_update = timestamp;
            proof {
                lemma_update_same_name(old(encounter).entities@, i as int, p);
                lemma_take_put(old(encounter).entities@, i as int, p);
            }
            put_entity(&mut encounter.entities, i, p);
        },
        None => {
            encounter.local_player = owned("You");
            let mut p = Entity::new(player_id.clone(), owned("You"));
            p.entity_type = EntityType::PLAYER;
            p.last_update = timestamp;
            upsert(encounter, p);
        },
    }
    let ghost mid = *encounter;
    assert(local_id_set(*old(encounter), mid, line@[2]@, timestamp));
    if encounters.is_none() {
        let ghost before = encounter.entities@;
        let ghost local = encounter.local_player@;
        let mut marks: Vec<bool> = Vec::new();
        for k in 0..encounter.entities.len()
            invariant
                before == encounter.entities@,
                local == encounter.local_player@,
                marks@ == zone_marks(before, local).take(k as int),
        {
            let keep = encounter.entities[k].name == encounter.local_player
                || encounter.entities[k].damage_stats.damage_dealt > 0;
            marks.push(keep);
            assert(marks@ =~= zone_marks(before, local).take(k + 1));
        }
        assert(marks@ =~= zone_marks(before, local));
        retain_marked(&mut encounter.entities, &marks);
        encounter.current_boss_name = String::new();
        proof {
            lemma_kept(before, marks@);
            lemma_index_of(before, crate::model::index_of(before, local));
            assert(marks@[crate::model::index_of(before, local)]);
            let j = crate::model::index_of(before, local);
            assert(kept(before, marks@).contains(before[j]));
            let k = choose|k: int| 0 <= k < encounter.entities@.len() && encounter.entities@[k] == before[j];
            lemma_index_of(encounter.entities@, k);
            assert forall|i: int| 0 <= i < encounter.entities@.len() implies
                (#[trigger] encounter.entities@[i]).name@ == local || encounter.entities@[i].damage_stats.damage_dealt > 0 by {
                let m = crate::model::kept_origin(before, marks@, i);
                assert(encounter.entities@[i] == before[m]);
            }
        }
        assert(encounter.entities@ == kept(mid.entities@, zone_marks(mid.entities@, mid.local_player@)));
        assert(crate::handlers::same_stats(*encounter, mid));
        Notice::SettleThenZoneChange
    } else {
        proof {
            let lp = encounter.local_player@;
            assert(mid.has(lp));
        }
        split_encounter(encounters, encounter, false);
        assert(mid.wf() && mid.has(mid.local_player@) && mid.get(mid.local_player@).id@ == line@[2]@);
        assert(is_reset_of(*encounter, mid));
        Notice::ZoneChange
    }
}

/// The milliseconds since the epoch of a timestamp field, if it is one.
pub uninterp spec fn utc_millis(s: Seq<char>) -> Option<i64>;

/// Relies on chrono's `str::parse::<DateTime<Utc>>` (RFC 3339, relaxed) and
/// `DateTime::timestamp_millis`: the result depends on the text alone.
#[verifier::external_body]
fn parse_timestamp(s: &str) -> (r: Option<i64>)
    ensures
        r == utc_millis(s@),
{
    match s.parse::<chrono::DateTime<chrono::Utc>>() {
        Ok(t) => Some(t.timestamp_millis()),
        Err(_) => None,
    }
}

/// Whether a record's handler leaves everything as it was.
pub open spec fn inert(kind: Option<RecordKind>) -> bool {
    match kind {
        None => true,
        Some(k) => k == RecordKind::Message || k == RecordKind::SkillStage || k == RecordKind::Heal
            || k == RecordKind::Buff,
    }
}

/// Every encounter a collector holds had a fight in it.
pub open spec fn all_worth(encs: Option<Vec<Encounter>>) -> bool {
    match encs {
        Some(v) => forall|j: int| 0 <= j < v@.len() ==> worth_keeping(#[trigger] v@[j]),
        None => true,
    }
}

/// What handling a record of kind `kind` does, as the handler of that kind
/// states it; kinds without content change nothing.
pub open spec fn handled(
    kind: Option<RecordKind>,
    oe: Option<Vec<Encounter>>,
    fe: Option<Vec<Encounter>>,
    oreset: bool,
    freset: bool,
    o: Encounter,
    f: Encounter,
    ts: i64,
    fields: Seq<String>,
    store: ReferenceData,
    r: Notice,
) -> bool {
    let quiet = r == Notice::Quiet && fe == oe && freset == oreset;
    match kind {
        Some(RecordKind::InitEnv) => init_env_handled(oe, fe, o, f, ts, fields, r) && freset == oreset,
        Some(RecordKind::PhaseTransition) => phase_handled(oe, fe, oreset, freset, o, f, fields, r),
        Some(RecordKind::NewPc) => quiet && crate::handlers::new_pc_handled(o, f, ts, fields),
        Some(RecordKind::NewNpc) => quiet && crate::handlers::new_npc_handled(o, f, ts, fields, store),
        Some(RecordKind::Death) => quiet && crate::handlers::death_handled(o, f, ts, fields),
        Some(RecordKind::SkillStart) => quiet && crate::handlers::skill_start_handled(o, f, ts, fields, store),
        Some(RecordKind::CounterAttack) => quiet && crate::handlers::counter_handled(o, f, fields),
        Some(RecordKind::Damage) => r == Notice::Quiet && fe == oe
            && crate::damage::damage_handled(oreset, freset, o, f, ts, fields, store),
        _ => quiet && f == o,
    }
}

/// Routes one record, already split into fields with a valid header, to
/// the handler of its kind.
pub fn dispatch_record(
    encounters: &mut Option<Vec<Encounter>>,
    reset: &mut bool,
    encounter: &mut Encounter,
    log_type: i32,
    timestamp: i64,
    fields: &Vec<String>,
    store: &ReferenceData,
) -> (r: Notice)
    requires
        old(encounter).wf(),
        fields@.len() >= 3,
    ensures
        all_wf(*old(encounters)) ==> all_wf(*final(encounters)),
        all_worth(*old(encounters)) ==> all_worth(*final(encounters)),
        final(encounter).wf(),
        (*final(encounters)) is Some <==> (*old(encounters)) is Some,
        handled(kind_of(log_type), *old(encounters), *final(encounters), *old(reset), *final(reset),
            *old(encounter), *final(encounter), timestamp, fields@, *store, r),
{
    match record_kind(log_type) {
        Some(RecordKind::InitEnv) => on_init_env(encounters, encounter, timestamp, fields),
        Some(RecordKind::PhaseTransition) => on_phase_transition(encounters, reset, encounter, fields),
        Some(RecordKind::NewPc) => {
            on_new_pc(encounter, timestamp, fields);
            Notice::Quiet
        },
        Some(RecordKind::NewNpc) => {
            on_new_npc(encounter, timestamp, fields, store);
            Notice::Quiet
        },
        Some(RecordKind::Death) => {
            on_death(encounter, timestamp, fields);
            Notice::Quiet
        },
        Some(RecordKind::SkillStart) => {
            on_skill_start(encounter, timestamp, fields, store);
            Notice::Quiet
        },
        Some(RecordKind::Damage) => {
            on_damage(reset, encounter, timestamp, fields, store);
            Notice::Quiet
        },
        Some(RecordKind::CounterAttack) => {
            on_counterattack(encounter, fields);
            Notice::Quiet
        },
        _ => Notice::Quiet,
    }
}

/// Whether a line carries no processable record: it is empty, has fewer
/// than three fields or an empty first one, its type or timestamp does not
/// parse, or its subject id is the literal zero.
pub open spec fn line_rejected(line: Seq<char>) -> bool {
    let f = split_on(trimmed(line), '|');
    line.len() == 0 || f.len() < 3 || f[0].len() == 0 || i32_text(f[0]) is None
        || utc_millis(f[1]) is None || f[2] == "0"@
}

/// `fields` are the fields of the trimmed line.
pub open spec fn fields_of(fields: Seq<String>, line: Seq<char>) -> bool {
    &&& fields.len() == split_on(trimmed(line), '|').len()
    &&& forall|i: int| 0 <= i < fields.len() ==> #[trigger] fields[i]@ == split_on(trimmed(line), '|')[i]
}

/// What feeding one line does: a rejected line changes nothing; any other
/// is handled as its kind says, over the fields of the trimmed line, at its
/// timestamp.
pub open spec fn line_fed(
    oe: Option<Vec<Encounter>>,
    fe: Option<Vec<Encounter>>,
    oreset: bool,
    freset: bool,
    o: Encounter,
    f: Encounter,
    line: Seq<char>,
    store: ReferenceData,
    r: Notice,
) -> bool {
    &&& all_wf(oe) ==> all_wf(fe)
    &&& all_worth(oe) ==> all_worth(fe)
    &&& f.wf()
    &&& fe is Some <==> oe is Some
    &&& line_rejected(line) ==> r == Notice::Quiet && f == o && freset == oreset && fe == oe
    &&& !line_rejected(line) ==> exists|fields: Seq<String>| fields_of(fields, line) && #[trigger] handled(
        kind_of(i32_text(split_on(trimmed(line), '|')[0])->0), oe, fe, oreset, freset, o, f,
        utc_millis(split_on(trimmed(line), '|')[1])->0, fields, store, r)
}

/// Feeds one line of the log. `encounters` collects finished encounters in
/// a replay and is `None` in a live feed, where `reset` carries the pending
/// soft reset from one line to the next.
pub fn parse_line(
    encounters: &mut Option<Vec<Encounter>>,
    reset: &mut bool,
    encounter: &mut Encounter,
    line: &String,
    store: &ReferenceData,
) -> (r: Notice)
    requires
        old(encounter).wf(),
    ensures
        line_fed(*old(encounters), *final(encounters), *old(reset), *final(reset), *old(encounter),
            *final(encounter), line@, *store, r),
{
    if line.as_str().is_empty() {
        return Notice::Quiet;
    }
    let text = trim_text(line.as_str());
    let fields = split_fields(text.as_str(), '|');
    if fields.len() < 3 || fields[0].as_str().is_empty() {
        return Notice::Quiet;
    }
    let log_type = match field_i32_opt(&fields[0]) {
        Some(t) => t,
        None => {
            return Notice::Quiet;
        },
    };
    let timestamp = match parse_timestamp(fields[1].as_str()) {
        Some(t) => t,
        None => {
            return Notice::Quiet;
        },
    };
    if is_text(&fields[2], "0") {
        return Notice::Quiet;
    }
    let r = dispatch_record(encounters, reset, encounter, log_type, timestamp, &fields, store);
    assert(fields_of(fields@, line@));
    assert(handled(kind_of(i32_text(split_on(trimmed(line@), '|')[0])->0), *old(encounters), *encounters,
        *old(reset), *reset, *old(encounter), *encounter,
        utc_millis(split_on(trimmed(line@), '|')[1])->0, fields@, *store, r));
    r
}

/// A total spread over a duration in milliseconds, per second, rounded
/// toward zero; over no time at all a positive total gives the largest
/// value, a negative one the smallest, and zero gives zero.
pub open spec fn per_second(total: i64, ms: i64) -> i64 {
    if ms == 0 {
        if total > 0 {
            i64::MAX
        } else if total < 0 {
            i64::MIN
        } else {
            0
        }
    } else {
        let a = total * 1000;
        let ua = if a >= 0 { a } else { -a };
        let um = if ms >= 0 { ms as int } else { -(ms as int) };
        sat(if (a >= 0) == (ms > 0) { ua / um } else { -(ua / um) })
    }
}

pub fn rate(total: i64, ms: i64) -> (r: i64)
    ensures
        r == per_second(total, ms),
{
    if ms == 0 {
        if total > 0 {
            i64::MAX
        } else if total < 0 {
            i64::MIN
        } else {
            0
        }
    } else {
        let a: i128 = total as i128 * 1000;
        let ua: i128 = if a >= 0 { a } else { -a };
        let um: i128 = if ms >= 0 { ms as i128 } else { -(ms as i128) };
        let q: i128 = ua / um;
        let v: i128 = if (a >= 0) == (ms > 0) { q } else { -q };
        assert(0 <= q <= ua) by (nonlinear_arith)
            requires
                q == ua / um,
                um >= 1,
                ua >= 0,
        ;
        if v > i64::MAX as i128 {
            i64::MAX
        } else if v < i64::MIN as i128 {
            i64::MIN
        } else {
            v as i64
        }
    }
}

/// Marks the entities that finalization keeps: those with positive max hp.
pub open spec fn live_marks(es: Seq<Entity>) -> Seq<bool> {
    Seq::new(es.len(), |i: int| es[i].max_hp > 0)
}

/// What finalization leaves of entity `o` over a fight of `ms`
/// milliseconds: its rate of damage dealt and each skill's rate of damage.
pub open spec fn finalized_entity(n: Entity, o: Entity, ms: i64) -> bool {
    &&& n == Entity { damage_stats: n.damage_stats, skills: n.skills, ..o }
    &&& n.damage_stats == crate::model::DamageStats { dps: per_second(o.damage_stats.damage_dealt, ms), ..o.damage_stats }
    &&& n.skills@.len() == o.skills@.len()
    &&& forall|k: int| 0 <= k < n.skills@.len() ==> #[trigger] n.skills@[k] == (crate::model::Skill {
        dps: per_second(o.skills@[k].total_damage, ms),
        ..o.skills@[k]
    })
}

fn finalize_entity(e: &mut Entity, ms: i64)
    ensures
        finalized_entity(*final(e), *old(e), ms),
{
    e.damage_stats.dps = rate(e.damage_stats.damage_dealt, ms);
    let ghost o = e.skills@;
    let ghost e0 = *e;
    let n = e.skills.len();
    for k in 0..n
        invariant
            *e == (Entity { skills: e.skills, ..e0 }),
            n == o.len(),
            e.skills@.len() == o.len(),
            forall|j: int| 0 <= j < k ==> #[trigger] e.skills@[j] == (crate::model::Skill {
                dps: per_second(o[j].total_damage, ms),
                ..o[j]
            }),
            forall|j: int| k <= j < o.len() ==> #[trigger] e.skills@[j] == o[j],
    {
        let mut sk = crate::model::Skill::new(0, String::new(), String::new(), 0);
        e.skills.set_and_swap(k, &mut sk);
        sk.dps = rate(sk.total_damage, ms);
        e.skills.set(k, sk);
    }
}

/// `f` is the finished encounter `o`, as `finalize` states it.
pub open spec fn finalized(o: Encounter, f: Encounter) -> bool {
    &&& (f.wf())
    &&& (f.duration == sat(o.last_combat_packet - o.fight_start))
    &&& (f.encounter_damage_stats.dps == per_second(o.encounter_damage_stats.total_damage_dealt, f.duration))
    &&& (forall|i: int| 0 <= i < o.entities@.len() ==> (#[trigger] o.entities@[i]).damage_stats.damage_taken
        <= f.encounter_damage_stats.most_damage_taken_entity.damage_taken)
    &&& (o.entities@.len() > 0 ==> exists|i: int| 0 <= i < o.entities@.len()
        && (#[trigger] o.entities@[i]).name@ == f.encounter_damage_stats.most_damage_taken_entity.name@
        && o.entities@[i].damage_stats.damage_taken == f.encounter_damage_stats.most_damage_taken_entity.damage_taken)
    &&& (f.entities@.len() == kept(o.entities@, live_marks(o.entities@)).len())
    &&& (forall|i: int| 0 <= i < f.entities@.len() ==> finalized_entity(
        #[trigger] f.entities@[i],
        kept(o.entities@, live_marks(o.entities@))[i],
        f.duration,
    ) && f.entities@[i].max_hp > 0)
    &&& (f.fight_start == o.fight_start)
    &&& (f.last_combat_packet == o.last_combat_packet)
    &&& (f.current_boss_name@ == (if f.has(o.current_boss_name@) {
        o.current_boss_name@
    } else {
        Seq::<char>::empty()
    }))
    &&& (f.local_player == o.local_player)
}

/// Completes a finished encounter: its duration and damage rates, the
/// entity that took the most damage, and without entities of no max hp.
pub fn finalize(e: &mut Encounter)
    requires
        old(e).wf(),
    ensures
        finalized(*old(e), *final(e)),
{
    proof {
        if e.current_boss_name@.len() == 0 {
            assert(e.current_boss_name@ =~= Seq::<char>::empty());
        }
    }
    let ghost o = *e;
    let span: i128 = e.last_combat_packet as i128 - e.fight_start as i128;
    let ms: i64 = if span > i64::MAX as i128 {
        i64::MAX
    } else if span < i64::MIN as i128 {
        i64::MIN
    } else {
        span as i64
    };
    e.duration = ms;
    e.encounter_damage_stats.dps = rate(e.encounter_damage_stats.total_damage_dealt, ms);
    if e.entities.len() > 0 {
        let mut best: usize = 0;
        for i in 1..e.entities.len()
            invariant
                e.entities@ == o.entities@,
                best < e.entities@.len(),
                forall|j: int| 0 <= j < i ==> (#[trigger] e.entities@[j]).damage_stats.damage_taken
                    <= e.entities@[best as int].damage_stats.damage_taken,
        {
            if e.entities[i].damage_stats.damage_taken > e.entities[best].damage_stats.damage_taken {
                best = i;
            }
        }
        e.encounter_damage_stats.most_damage_taken_entity = MostDamageTakenEntity {
            name: e.entities[best].name.clone(),
            damage_taken: e.entities[best].damage_stats.damage_taken,
        };
        assert(o.entities@[best as int].name@ == e.encounter_damage_stats.most_damage_taken_entity.name@);
    }
    let ghost before = e.entities@;
    let mut marks: Vec<bool> = Vec::new();
    for k in 0..e.entities.len()
        invariant
            before == e.entities@,
            marks@ == live_marks(before).take(k as int),
    {
        marks.push(e.entities[k].max_hp > 0);
        assert(marks@ =~= live_marks(before).take(k + 1));
    }
    assert(marks@ =~= live_marks(before));
    retain_marked(&mut e.entities, &marks);
    proof {
        lemma_kept(before, marks@);
    }
    let ghost pruned = e.entities@;
    proof {
        assert forall|i: int| 0 <= i < pruned.len() implies (#[trigger] pruned[i]).max_hp > 0 by {
            let m = crate::model::kept_origin(before, marks@, i);
            assert(pruned[i] == before[m]);
        }
    }
    let ghost frame = *e;
    let n = e.entities.len();
    for k in 0..n
        invariant
            *e == (Encounter { entities: e.entities, ..frame }),
            n == pruned.len(),
            e.entities@.len() == pruned.len(),
            names_distinct(pruned),
            forall|i: int| 0 <= i < pruned.len() ==> (#[trigger] pruned[i]).max_hp > 0,
            forall|j: int| 0 <= j < k ==> finalized_entity(#[trigger] e.entities@[j], pruned[j], ms),
            forall|j: int| k <= j < pruned.len() ==> #[trigger] e.entities@[j] == pruned[j],
    {
        let mut ent = Entity::new(String::new(), String::new());
        e.entities.set_and_swap(k, &mut ent);
        finalize_entity(&mut ent, ms);
        e.entities.set(k, ent);
    }
    if !e.current_boss_name.as_str().is_empty() {
        if find_entity(&e.entities, &e.current_boss_name).is_none() {
            e.current_boss_name = String::new();
        }
    }
    proof {
        assert(names_distinct(e.entities@)) by {
            assert forall|a: int, b: int| 0 <= a < e.entities@.len() && 0 <= b < e.entities@.len() && a != b implies
                #[trigger] e.entities@[a].name@ != #[trigger] e.entities@[b].name@ by {
                assert(finalized_entity(e.entities@[a], pruned[a], ms));
                assert(finalized_entity(e.entities@[b], pruned[b], ms));
            }
        }
    }
}

/// An idle encounter with nothing in it.
pub open spec fn blank_encounter(e: Encounter) -> bool {
    &&& e.wf()
    &&& e.entities@.len() == 0
    &&& e.fight_start == 0 && e.last_combat_packet == 0 && e.duration == 0
    &&& e.local_player@.len() == 0 && e.current_boss_name@.len() == 0
    &&& e.encounter_damage_stats.is_zero()
    &&& !e.reset
}

/// One state of a replay: the collector, the encounter and the pending-reset
/// flag.
pub struct ReplayState {
    pub collected: Option<Vec<Encounter>>,
    pub encounter: Encounter,
    pub reset: bool,
}

/// Feeding the lines one after another passes through `states`: the `i`-th
/// line takes `states[i]` to `states[i + 1]`.
pub open spec fn replays(lines: Seq<String>, store: ReferenceData, states: Seq<ReplayState>, notices: Seq<Notice>) -> bool {
    &&& states.len() == lines.len() + 1
    &&& notices.len() == lines.len()
    &&& forall|i: int| 0 <= i < lines.len() ==> #[trigger] line_fed(
        states[i].collected, states[i + 1].collected, states[i].reset, states[i + 1].reset,
        states[i].encounter, states[i + 1].encounter, lines[i]@, store, notices[i])
}

/// Replays a whole log: feeds each line, keeps each encounter that a zone
/// change or phase transition ends with a fight in it, and finalizes them.
/// The encounter still open at the end is not kept.
pub fn parse_log(lines: Vec<String>, store: &ReferenceData) -> (r: Result<Vec<Encounter>, String>)
    ensures
        r is Ok,
        exists|states: Seq<ReplayState>, notices: Seq<Notice>| {
            &&& #[trigger] replays(lines@, *store, states, notices)
            &&& states[0].collected is Some && states[0].collected->0@.len() == 0
            &&& blank_encounter(states[0].encounter)
            &&& !states[0].reset
            &&& states.last().collected is Some
            &&& r->Ok_0@.len() == states.last().collected->0@.len()
            &&& forall|i: int| 0 <= i < r->Ok_0@.len() ==> worth_keeping(#[trigger] states.last().collected->0@[i])
                && finalized(states.last().collected->0@[i], r->Ok_0@[i])
        },
{
    let mut collected: Option<Vec<Encounter>> = Some(Vec::new());
    let mut reset = false;
    let mut encounter = Encounter::new();
    let ghost mut states: Seq<ReplayState> = seq![ReplayState { collected, encounter, reset }];
    let ghost mut notices: Seq<Notice> = Seq::empty();
    for i in 0..lines.len()
        invariant
            encounter.wf(),
            collected is Some,
            all_wf(collected),
            all_worth(collected),
            states.len() == i + 1,
            notices.len() == i,
            states.last() == (ReplayState { collected, encounter, reset }),
            states[0].collected is Some && states[0].collected->0@.len() == 0,
            blank_encounter(states[0].encounter),
            !states[0].reset,
            forall|j: int| 0 <= j < i ==> #[trigger] line_fed(
                states[j].collected, states[j + 1].collected, states[j].reset, states[j + 1].reset,
                states[j].encounter, states[j + 1].encounter, lines@[j]@, *store, notices[j]),
    {
        let n = parse_line(&mut collected, &mut reset, &mut encounter, &lines[i], store);
        proof {
            let ghost prev = states;
            states = states.push(ReplayState { collected, encounter, reset });
            notices = notices.push(n);
            assert forall|j: int| 0 <= j < i + 1 implies #[trigger] line_fed(
                states[j].collected, states[j + 1].collected, states[j].reset, states[j + 1].reset,
                states[j].encounter, states[j + 1].encounter, lines@[j]@, *store, notices[j]) by {
                if j < i {
                    assert(states[j] == prev[j] && states[j + 1] == prev[j + 1]);
                }
            }
        }
    }
    proof {
        assert(replays(lines@, *store, states, notices));
    }
    let ghost fe = collected;
    let mut found = match collected {
        Some(v) => v,
        None => Vec::new(),
    };
    let ghost full = found@;
    let mut out: Vec<Encounter> = Vec::new();
    while found.len() > 0
        invariant
            out@.len() + found@.len() == full.len(),
            found@ == full.skip(out@.len() as int),
            forall|j: int| 0 <= j < full.len() ==> (#[trigger] full[j]).wf(),
            forall|j: int| 0 <= j < out@.len() ==> finalized(full[j], #[trigger] out@[j]),
        decreases found.len(),
    {
        let ghost k = out@.len();
        assert(found@[0] == full[k as int]);
        let mut enc = found.remove(0);
        finalize(&mut enc);
        out.push(enc);
        assert(found@ =~= full.skip(out@.len() as int));
    }
    proof {
        assert(out@.len() == full.len());
    }
    Ok(out)
}

} // verus!
