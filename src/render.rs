//! Turning deviating periods into spoken sentences.
use vstd::prelude::*;
use crate::clock::{hhmm, Date};
use crate::model::{ElementState, Period, PeriodState, Room, Teacher};
use crate::order::{chronological, chronological_order, lemma_chronological_in_range};

verus! {

/// What is said about a period's teacher.
pub open spec fn teacher_clause(t: Teacher) -> Seq<char> {
    match (t.state, t.original_teacher) {
        (ElementState::Absent, Some(o)) => "Unterricht ohne Lehrer (von '"@ + o.name@ + "'); "@,
        (ElementState::Substituted, Some(o)) => "Lehrerwechsel von '"@ + o.name@ + "' zu '"@
            + t.name@ + "'; "@,
        _ => Seq::empty(),
    }
}

/// What is said about a period's room.
pub open spec fn room_clause(r: Room) -> Seq<char> {
    match (r.state, r.original_room) {
        (ElementState::Absent, Some(o)) => "Unterricht ohne Raum (von '"@ + o.long_name@ + "'); "@,
        (ElementState::Substituted, Some(o)) => "Raumwechsel von '"@ + o.long_name@ + "' zu '"@
            + r.long_name@ + "'; "@,
        _ => Seq::empty(),
    }
}

pub open spec fn optional_teacher_clause(t: Option<Teacher>) -> Seq<char> {
    match t {
        Some(t) => teacher_clause(t),
        None => Seq::empty(),
    }
}

pub open spec fn optional_room_clause(r: Option<Room>) -> Seq<char> {
    match r {
        Some(r) => room_clause(r),
        None => Seq::empty(),
    }
}

/// The sentence announcing a period; empty for a period without a subject.
pub open spec fn speakable_text_spec(p: Period) -> Seq<char> {
    match p.subject {
        None => Seq::empty(),
        Some(s) => match p.state {
            PeriodState::Cancel => s.long_name@ + " fällt zwischen "@ + hhmm(p.start_time)
                + " und "@ + hhmm(p.end_time) + " Uhr aus!"@,
            PeriodState::Standard => "Im Fach "@ + s.long_name@ + " zwischen "@ + hhmm(
                p.start_time,
            ) + " und "@ + hhmm(p.end_time) + " Uhr gibt es keine Änderungen!"@,
            PeriodState::Substitution => "Änderung bei "@ + s.long_name@ + " zwischen "@ + hhmm(
                p.start_time,
            ) + " und "@ + hhmm(p.end_time) + " Uhr: "@ + optional_teacher_clause(p.teacher)
                + optional_room_clause(p.room) + p.substitution_text@,
        },
    }
}

fn push_teacher_clause(out: &mut String, t: &Teacher)
    ensures
        final(out)@ == old(out)@ + teacher_clause(*t),
{
    match (t.state, &t.original_teacher) {
        (ElementState::Absent, Some(o)) => {
            out.append("Unterricht ohne Lehrer (von '");
            out.append(o.name.as_str());
            out.append("'); ");
        },
        (ElementState::Substituted, Some(o)) => {
            out.append("Lehrerwechsel von '");
            out.append(o.name.as_str());
            out.append("' zu '");
            out.append(t.name.as_str());
            out.append("'; ");
        },
        _ => {},
    }
    assert(final(out)@ =~= old(out)@ + teacher_clause(*t));
}

fn push_room_clause(out: &mut String, r: &Room)
    ensures
        final(out)@ == old(out)@ + room_clause(*r),
{
    match (r.state, &r.original_room) {
        (ElementState::Absent, Some(o)) => {
            out.append("Unterricht ohne Raum (von '");
            out.append(o.long_name.as_str());
            out.append("'); ");
        },
        (ElementState::Substituted, Some(o)) => {
            out.append("Raumwechsel von '");
            out.append(o.long_name.as_str());
            out.append("' zu '");
            out.append(r.long_name.as_str());
            out.append("'; ");
        },
        _ => {},
    }
    assert(final(out)@ =~= old(out)@ + room_clause(*r));
}

impl Period {
    /// The sentence that announces this period.
    pub fn speakable_text(&self) -> (r: String)
        ensures
            r@ == speakable_text_spec(*self),
    {
        match &self.subject {
            None => String::new(),
            Some(subject) => {
                let mut out = String::new();
                match self.state {
                    PeriodState::Cancel => {
                        out.append(subject.long_name.as_str());
                        out.append(" fällt zwischen ");
                        self.start_time.push_hhmm(&mut out);
                        out.append(" und ");
                        self.end_time.push_hhmm(&mut out);
                        out.append(" Uhr aus!");
                    },
                    PeriodState::Standard => {
                        out.append("Im Fach ");
                        out.append(subject.long_name.as_str());
                        out.append(" zwischen ");
                        self.start_time.push_hhmm(&mut out);
                        out.append(" und ");
                        self.end_time.push_hhmm(&mut out);
                        out.append(" Uhr gibt es keine Änderungen!");
                    },
                    PeriodState::Substitution => {
                        out.append("Änderung bei ");
                        out.append(subject.long_name.as_str());
                        out.append(" zwischen ");
                        self.start_time.push_hhmm(&mut out);
                        out.append(" und ");
                        self.end_time.push_hhmm(&mut out);
                        out.append(" Uhr: ");
                        if let Some(teacher) = &self.teacher {
                            push_teacher_clause(&mut out, teacher);
                        }
                        if let Some(room) = &self.room {
                            push_room_clause(&mut out, room);
                        }
                        out.append(self.substitution_text.as_str());
                    },
                }
                assert(out@ =~= speakable_text_spec(*self));
                out
            },
        }
    }
}

/// A period is announced when it deviates from the plan and falls on `today`.
pub open spec fn is_announced(p: Period, today: Date) -> bool {
    p.state != PeriodState::Standard && p.date == today
}

/// The sentences for the first `k` periods of `order` that are announced.
pub open spec fn announced_lines(ps: Seq<Period>, order: Seq<usize>, today: Date, k: nat) -> Seq<
    Seq<char>,
>
    decreases k,
{
    if k == 0 {
        Seq::empty()
    } else {
        let prev = announced_lines(ps, order, today, (k - 1) as nat);
        let p = ps[order[k - 1] as int];
        if is_announced(p, today) {
            prev.push(speakable_text_spec(p))
        } else {
            prev
        }
    }
}

/// Lines joined by newlines.
pub open spec fn join_lines(lines: Seq<Seq<char>>) -> Seq<char>
    decreases lines.len(),
{
    if lines.len() == 0 {
        Seq::empty()
    } else if lines.len() == 1 {
        lines[0]
    } else {
        join_lines(lines.drop_last()) + "\n"@ + lines.last()
    }
}

/// The announcement of `today`'s deviations, in chronological order.
pub open spec fn speakable_spec(ps: Seq<Period>, today: Date) -> Seq<char> {
    let order = chronological(ps);
    join_lines(announced_lines(ps, order, today, order.len()))
}

/// One line per period of `today` that deviates from the plan, sorted by
/// start, joined by newlines.
pub fn speakable(periods: &Vec<Period>, today: Date) -> (r: String)
    ensures
        r@ == speakable_spec(periods@, today),
{
    let order = chronological_order(periods);
    let mut out = String::new();
    let mut first = true;
    let mut k: usize = 0;
    while k < order.len()
        invariant
            order@ == chronological(periods@),
            forall|j: int| 0 <= j < order@.len() ==> order@[j] < periods@.len(),
            k <= order@.len(),
            out@ == join_lines(announced_lines(periods@, order@, today, k as nat)),
            first == (announced_lines(periods@, order@, today, k as nat).len() == 0),
        decreases order.len() - k,
    {
        let p = &periods[order[k]];
        let ghost prev = announced_lines(periods@, order@, today, k as nat);
        if p.state != PeriodState::Standard && p.date == today {
            let line = p.speakable_text();
            if !first {
                out.append("\n");
            }
            out.append(line.as_str());
            first = false;
            proof {
                let next = prev.push(line@);
                assert(next.drop_last() == prev);
                assert(out@ =~= join_lines(next));
            }
        }
        k = k + 1;
    }
    out
}

/// A teacher that is still the originally planned one is not mentioned.
pub proof fn lemma_unchanged_teacher_is_silent(t: Teacher)
    requires
        t.wf(),
        t.id == t.original_teacher_id,
    ensures
        teacher_clause(t) == Seq::<char>::empty(),
{
}

/// A room that is still the originally planned one is not mentioned.
pub proof fn lemma_unchanged_room_is_silent(r: Room)
    requires
        r.wf(),
        r.id == r.original_room_id,
    ensures
        room_clause(r) == Seq::<char>::empty(),
{
}

proof fn lemma_no_lines(ps: Seq<Period>, order: Seq<usize>, today: Date, k: nat)
    requires
        k <= order.len(),
        forall|a: int| 0 <= a < order.len() ==> #[trigger] order[a] < ps.len(),
        forall|i: int| 0 <= i < ps.len() ==> !is_announced(#[trigger] ps[i], today),
    ensures
        announced_lines(ps, order, today, k) == Seq::<Seq<char>>::empty(),
    decreases k,
{
    if k > 0 {
        lemma_no_lines(ps, order, today, (k - 1) as nat);
        assert(order[k - 1] < ps.len());
    }
}

/// On a day on which no period deviates from the plan, nothing is announced.
pub proof fn lemma_quiet_day_is_empty(ps: Seq<Period>, today: Date)
    requires
        ps.len() <= usize::MAX,
        forall|i: int| 0 <= i < ps.len() ==> !is_announced(#[trigger] ps[i], today),
    ensures
        speakable_spec(ps, today) == Seq::<char>::empty(),
{
    lemma_chronological_in_range(ps);
    lemma_no_lines(ps, chronological(ps), today, chronological(ps).len());
}

/// The announcement depends on the periods and the day alone: the same
/// periods and day always give the same text.
pub proof fn lemma_speakable_repeatable(ps: Seq<Period>, qs: Seq<Period>, today: Date)
    requires
        ps == qs,
    ensures
        speakable_spec(ps, today) == speakable_spec(qs, today),
{
}

} // verus!
