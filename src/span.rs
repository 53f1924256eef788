use vstd::prelude::*;
use crate::moment::{Moment, MOMENT_LIMIT, SECONDS_PER_DAY};
use crate::parse::{parse_datetime, parse_spec, ParseError};

verus! {

/// Seconds in half a day.
pub const SECONDS_PER_HALF_DAY: i64 = 43200;

/// Where an entry that follows `prior` lands. An entry not before `prior`
/// stays as written. An earlier one is read as a clock time on the day of
/// `prior`: it stays there if that is not before `prior`; otherwise it moves
/// 12 hours on when `prior` is before noon (a morning start, an afternoon end)
/// and to the next day when `prior` is past noon. Spans longer than a day
/// cannot be told apart by this rule.
pub open spec fn resolved(prior: Moment, next: Moment) -> int {
    if next.seconds >= prior.seconds {
        next.seconds as int
    } else {
        let same_day = prior.midnight() + next.second_of_day();
        if same_day >= prior.seconds {
            same_day
        } else if prior.second_of_day() < SECONDS_PER_HALF_DAY {
            same_day + SECONDS_PER_HALF_DAY
        } else {
            same_day + SECONDS_PER_DAY
        }
    }
}

/// Places `next` at or after `prior`, undoing the AM/PM and midnight
/// shorthand of bare clock entries.
pub fn resolve(prior: &Moment, next: &Moment) -> (r: Moment)
    requires
        prior.wf(),
        next.wf(),
    ensures
        r.seconds == resolved(*prior, *next),
        prior.seconds <= r.seconds,
        r.seconds <= prior.seconds + SECONDS_PER_DAY || r == *next,
{
    if next.seconds >= prior.seconds {
        return *next;
    }
    let prior_time = prior.time_of_day() as i64;
    let same_day = prior.seconds - prior_time + next.time_of_day() as i64;
    if same_day >= prior.seconds {
        Moment { seconds: same_day }
    } else if prior_time < SECONDS_PER_HALF_DAY {
        Moment { seconds: same_day + SECONDS_PER_HALF_DAY }
    } else {
        Moment { seconds: same_day + SECONDS_PER_DAY }
    }
}

/// The entry of a stream at which reading stopped, and why.
#[derive(Clone, Copy, Debug, PartialEq, Eq, Structural)]
pub struct EntryError {
    pub index: usize,
    pub kind: ParseError,
}

/// The characters of each line.
pub open spec fn texts(lines: Seq<String>) -> Seq<Seq<char>> {
    lines.map_values(|l: String| l@)
}

/// What one entry denotes, given the moment of the entry before it, if any:
/// the entry parsed on the day of `reference`, then resolved against `prior`.
pub open spec fn entry_spec(reference: Moment, prior: Option<Moment>, s: Seq<char>) -> Result<
    Moment,
    ParseError,
> {
    match parse_spec(reference, s) {
        Err(kind) => Err(kind),
        Ok(m) => match prior {
            None => Ok(m),
            Some(p) => {
                let v = resolved(p, m);
                if v > MOMENT_LIMIT {
                    Err(ParseError::InvalidRange)
                } else {
                    Ok(Moment { seconds: v as i64 })
                }
            },
        },
    }
}

/// The last moment of `t`, if any.
pub open spec fn last_of(t: Seq<Moment>) -> Option<Moment> {
    if t.len() == 0 { None } else { Some(t.last()) }
}

/// What a stream of entries denotes: each line read as `entry_spec` says,
/// against the moment of the line before it. The first line that fails stops
/// the stream.
pub open spec fn stream_spec(reference: Moment, lines: Seq<Seq<char>>) -> Result<
    Seq<Moment>,
    EntryError,
>
    decreases lines.len(),
{
    if lines.len() == 0 {
        Ok(Seq::empty())
    } else {
        let i = lines.len() - 1;
        match stream_spec(reference, lines.drop_last()) {
            Err(e) => Err(e),
            Ok(prev) => match entry_spec(reference, last_of(prev), lines[i]) {
                Err(kind) => Err(EntryError { index: i as usize, kind }),
                Ok(m) => Ok(prev.push(m)),
            },
        }
    }
}

proof fn lemma_stream_error_stays(reference: Moment, lines: Seq<Seq<char>>, k: int, e: EntryError)
    requires
        0 <= k <= lines.len(),
        stream_spec(reference, lines.take(k)) == Err::<Seq<Moment>, EntryError>(e),
    ensures
        stream_spec(reference, lines) == Err::<Seq<Moment>, EntryError>(e),
    decreases lines.len(),
{
    if k == lines.len() {
        assert(lines.take(k) =~= lines);
    } else {
        assert(lines.drop_last().take(k) =~= lines.take(k));
        lemma_stream_error_stays(reference, lines.drop_last(), k, e);
    }
}

/// Reads one entry against the moment of the entry before it.
fn read_entry(reference: &Moment, prior: Option<Moment>, s: &str) -> (r: Result<Moment, ParseError>)
    requires
        reference.wf(),
        prior is Some ==> prior->Some_0.wf(),
    ensures
        r == entry_spec(*reference, prior, s@),
        r is Ok ==> r->Ok_0.wf(),
        r is Ok && prior is Some ==> prior->Some_0.seconds <= r->Ok_0.seconds,
{
    let m = parse_datetime(reference, s)?;
    match prior {
        None => Ok(m),
        Some(p) => {
            let v = resolve(&p, &m);
            if v.seconds > MOMENT_LIMIT {
                Err(ParseError::InvalidRange)
            } else {
                Ok(v)
            }
        },
    }
}

/// Every moment is in range and none comes before the one ahead of it.
pub open spec fn ordered(t: Seq<Moment>) -> bool {
    &&& forall|i: int| 0 <= i < t.len() ==> (#[trigger] t[i]).wf()
    &&& forall|i: int, j: int| 0 <= i <= j < t.len() ==> t[i].seconds <= t[j].seconds
}

/// Parses every line of a stream of clock entries on the day of `reference`,
/// resolving each against the one before it.
pub fn from_stream(reference: &Moment, lines: &Vec<String>) -> (r: Result<Vec<Moment>, EntryError>)
    requires
        reference.wf(),
    ensures
        match r {
            Ok(v) => stream_spec(*reference, texts(lines@)) == Ok::<Seq<Moment>, EntryError>(v@),
            Err(e) => stream_spec(*reference, texts(lines@)) == Err::<Seq<Moment>, EntryError>(e),
        },
        r is Ok ==> ordered(r->Ok_0@) && r->Ok_0@.len() == lines@.len(),
{
    let ghost all = texts(lines@);
    let mut out: Vec<Moment> = Vec::new();
    let mut i: usize = 0;
    while i < lines.len()
        invariant
            reference.wf(),
            all == texts(lines@),
            i <= lines@.len(),
            out@.len() == i,
            stream_spec(*reference, all.take(i as int)) == Ok::<Seq<Moment>, EntryError>(out@),
            ordered(out@),
        decreases lines@.len() - i,
    {
        proof {
            assert(all.take(i as int + 1).drop_last() =~= all.take(i as int));
            assert(all.take(i as int + 1)[i as int] == lines@[i as int]@);
        }
        let prior = if i == 0 { None } else { Some(out[i - 1]) };
        match read_entry(reference, prior, lines[i].as_str()) {
            Err(kind) => {
                proof {
                    lemma_stream_error_stays(
                        *reference, all, i as int + 1, EntryError { index: i, kind });
                }
                return Err(EntryError { index: i, kind });
            },
            Ok(m) => {
                out.push(m);
            },
        }
        i = i + 1;
    }
    proof {
        assert(all.take(i as int) =~= all);
    }
    Ok(out)
}

} // verus!
