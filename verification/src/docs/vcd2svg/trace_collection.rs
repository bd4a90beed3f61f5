//! The traces of chosen signals gathered from the commands of a value
//! change dump.  Each signal is a string, a single bit or a vector,
//! according to its width (0, 1, or more bits); a change of a signal is
//! kept, stamped with the time of the last timestamp command before it,
//! in the trace of each chosen signal with its id code and kind.  Only
//! the levels 0 and 1 are supported: a change of a chosen signal to any
//! other level is an error.
use crate::docs::vcd2svg::timed_value::{SignalType, TimedValue, VectorValue};
use crate::text::lines::{lemma_split_on_len, split_on, split_on_char, strings_view};
use vcd::Command::{ChangeScalar, ChangeString, ChangeVector, Timestamp};
use vcd::{Parser, Value};
use vcd::Value::{V0, V1};
use vstd::prelude::*;

verus! {

/// One command of a dump, as far as traces are concerned.  A level is
/// `'0'` or `'1'`; any other level (or a vector holding one) is `None`.
pub enum TraceEvent {
    Timestamp(u64),
    ChangeScalar(String, Option<char>),
    /// The levels of a vector, as [VectorValue] holds them.
    ChangeVector(String, Option<String>),
    ChangeString(String, String),
    /// Any other command; it changes no trace.
    Other,
}

/// The trace of one signal.
pub enum SignalTrace {
    Strings(Vec<TimedValue<String>>),
    Vectors(Vec<TimedValue<VectorValue>>),
    Bits(Vec<TimedValue<bool>>),
}

/// Why a dump's traces could not be gathered.
#[derive(Debug, Clone, Copy, PartialEq, Eq, Structural)]
pub enum TraceError {
    /// A chosen signal changed to a level other than 0 or 1.
    UnsupportedValue,
    /// The dump could not be read.
    Unreadable,
    /// The signal at this position of the list is not in the dump.
    UnknownSignal(usize),
}

/// A command of a dump as plain values: codes, strings and vector levels
/// by their characters.
pub enum EventView {
    Timestamp(u64),
    ChangeScalar(Seq<char>, Option<char>),
    ChangeVector(Seq<char>, Option<Seq<char>>),
    ChangeString(Seq<char>, Seq<char>),
    Other,
}

impl View for TraceEvent {
    type V = EventView;

    open spec fn view(&self) -> EventView {
        match self {
            TraceEvent::Timestamp(x) => EventView::Timestamp(*x),
            TraceEvent::ChangeScalar(id, v) => EventView::ChangeScalar(id@, *v),
            TraceEvent::ChangeVector(id, v) => EventView::ChangeVector(
                id@,
                match v {
                    Some(x) => Some(x@),
                    None => None,
                },
            ),
            TraceEvent::ChangeString(id, v) => EventView::ChangeString(id@, v@),
            TraceEvent::Other => EventView::Other,
        }
    }
}

/// The views of a list of commands.
pub open spec fn events_view(v: Seq<TraceEvent>) -> Seq<EventView> {
    v.map_values(|e: TraceEvent| e@)
}

/// A trace as a sequence of times and values; a string or a vector by its
/// characters.
pub enum TraceView {
    Strings(Seq<(u64, Seq<char>)>),
    Vectors(Seq<(u64, Seq<char>)>),
    Bits(Seq<(u64, bool)>),
}

impl SignalTrace {
    pub open spec fn view_trace(self) -> TraceView {
        match self {
            SignalTrace::Strings(v) => TraceView::Strings(
                v@.map_values(|x: TimedValue<String>| (x.time, x.value@)),
            ),
            SignalTrace::Vectors(v) => TraceView::Vectors(
                v@.map_values(|x: TimedValue<VectorValue>| (x.time, x.value.levels())),
            ),
            SignalTrace::Bits(v) => TraceView::Bits(
                v@.map_values(|x: TimedValue<bool>| (x.time, x.value)),
            ),
        }
    }
}

/// The traces of the chosen signals, in the order they were chosen.
pub struct TraceCollection {
    /// Each signal's id code and name.
    pub signal_names: Vec<(String, String)>,
    /// Each signal's trace, in the order of `signal_names`.
    pub traces: Vec<SignalTrace>,
}

/// The views of a list of traces.
pub open spec fn traces_view(v: Seq<SignalTrace>) -> Seq<TraceView> {
    v.map_values(|s: SignalTrace| s.view_trace())
}

/// The empty trace of a signal `size` bits wide.
pub open spec fn empty_trace(size: u32) -> TraceView {
    if size == 0 {
        TraceView::Strings(Seq::empty())
    } else if size == 1 {
        TraceView::Bits(Seq::empty())
    } else {
        TraceView::Vectors(Seq::empty())
    }
}

/// A trace after a change command at time `t`: the value is kept when the
/// command is for the trace's code and of the trace's kind.
pub open spec fn changed(tr: TraceView, code: Seq<char>, t: u64, e: EventView) -> TraceView {
    match (e, tr) {
        (EventView::ChangeScalar(id, Some(v)), TraceView::Bits(s)) => if id == code {
            TraceView::Bits(s.push((t, v == '1')))
        } else {
            tr
        },
        (EventView::ChangeVector(id, Some(v)), TraceView::Vectors(s)) => if id == code {
            TraceView::Vectors(s.push((t, v)))
        } else {
            tr
        },
        (EventView::ChangeString(id, v), TraceView::Strings(s)) => if id == code {
            TraceView::Strings(s.push((t, v)))
        } else {
            tr
        },
        _ => tr,
    }
}

/// The traces and the current time after the commands `events`, from
/// empty traces of the signals' kinds at time 0.
pub open spec fn collected(
    codes: Seq<Seq<char>>,
    sizes: Seq<u32>,
    events: Seq<EventView>,
) -> (Seq<TraceView>, u64)
    decreases events.len(),
{
    if events.len() == 0 {
        (Seq::new(sizes.len(), |j: int| empty_trace(sizes[j])), 0)
    } else {
        let (traces, t) = collected(codes, sizes, events.drop_last());
        match events.last() {
            EventView::Timestamp(x) => (traces, x),
            e => (Seq::new(traces.len(), |j: int| changed(traces[j], codes[j], t, e)), t),
        }
    }
}

/// Whether a chosen signal has the code `id` and is a single bit
/// (`scalar`) or a vector.
pub open spec fn chosen(codes: Seq<Seq<char>>, sizes: Seq<u32>, id: Seq<char>, scalar: bool) -> bool {
    exists|j: int|
        0 <= j < codes.len() && codes[j] == id && #[trigger] sizes[j] == sizes[j] && (if scalar {
            sizes[j] == 1
        } else {
            sizes[j] > 1
        })
}

/// A command that changes a chosen signal to an unsupported level.
pub open spec fn unsupported(codes: Seq<Seq<char>>, sizes: Seq<u32>, e: EventView) -> bool {
    match e {
        EventView::ChangeScalar(id, None) => chosen(codes, sizes, id, true),
        EventView::ChangeVector(id, None) => chosen(codes, sizes, id, false),
        _ => false,
    }
}

/// The chosen signals' codes.
pub open spec fn codes_of(signals: Seq<(String, String, u32)>) -> Seq<Seq<char>> {
    signals.map_values(|s: (String, String, u32)| s.0@)
}

/// The chosen signals' widths.
pub open spec fn sizes_of(signals: Seq<(String, String, u32)>) -> Seq<u32> {
    signals.map_values(|s: (String, String, u32)| s.2)
}

/// Keeps a change of `e`, at time `t`, in each trace it is for.
fn apply_change(traces: &mut Vec<SignalTrace>, codes: &Vec<String>, t: u64, e: &TraceEvent)
    requires
        old(traces).len() == codes.len(),
    ensures
        final(traces).len() == codes.len(),
        traces_view(final(traces)@) == Seq::new(
            codes.len() as nat,
            |j: int| changed(traces_view(old(traces)@)[j], codes@[j]@, t, e@),
        ),
{
    let n = traces.len();
    let ghost before = traces_view(traces@);
    for j in 0..n
        invariant
            n == traces.len(),
            n == codes.len(),
            before.len() == n,
            forall|k: int|
                0 <= k < j ==> #[trigger] traces_view(traces@)[k] == changed(
                    before[k],
                    codes@[k]@,
                    t,
                    e@,
                ),
            forall|k: int| j <= k < n ==> #[trigger] traces_view(traces@)[k] == before[k],
    {
        let matches = match e {
            TraceEvent::ChangeScalar(id, _) => *id == codes[j],
            TraceEvent::ChangeVector(id, _) => *id == codes[j],
            TraceEvent::ChangeString(id, _) => *id == codes[j],
            _ => false,
        };
        let ghost old_traces = traces@;
        assert(traces_view(old_traces)[j as int] == before[j as int]);
        if matches {
            let tr = traces.remove(j);
            let updated = match tr {
                SignalTrace::Bits(mut s) => {
                    let ghost s0 = s@;
                    if let TraceEvent::ChangeScalar(_, Some(v)) = e {
                        s.push(TimedValue { time: t, value: *v == '1' });
                        assert(s@.map_values(|x: TimedValue<bool>| (x.time, x.value)) =~= s0.map_values(
                            |x: TimedValue<bool>| (x.time, x.value),
                        ).push((t, *v == '1')));
                    }
                    SignalTrace::Bits(s)
                },
                SignalTrace::Vectors(mut s) => {
                    let ghost s0 = s@;
                    if let TraceEvent::ChangeVector(_, Some(v)) = e {
                        s.push(TimedValue { time: t, value: VectorValue::from_levels(v.clone()) });
                        assert(s@.map_values(|x: TimedValue<VectorValue>| (x.time, x.value.levels()))
                            =~= s0.map_values(
                            |x: TimedValue<VectorValue>| (x.time, x.value.levels()),
                        ).push((t, v@)));
                    }
                    SignalTrace::Vectors(s)
                },
                SignalTrace::Strings(mut s) => {
                    let ghost s0 = s@;
                    if let TraceEvent::ChangeString(_, v) = e {
                        s.push(TimedValue { time: t, value: v.clone() });
                        assert(s@.map_values(|x: TimedValue<String>| (x.time, x.value@)) =~= s0.map_values(
                            |x: TimedValue<String>| (x.time, x.value@),
                        ).push((t, v@)));
                    }
                    SignalTrace::Strings(s)
                },
            };
            traces.insert(j, updated);
            assert(traces@ =~= old_traces.update(j as int, updated));
            assert(tr == old_traces[j as int]);
            assert(before[j as int] == tr.view_trace());
            assert(updated.view_trace() == changed(tr.view_trace(), codes@[j as int]@, t, e@));
        }
        proof {
            assert forall|k: int| 0 <= k < n && k != j implies #[trigger] traces_view(traces@)[k]
                == traces_view(old_traces)[k] by {
                assert(traces@[k] == old_traces[k]);
            }
            assert(traces_view(traces@)[j as int] == changed(before[j as int], codes@[j as int]@, t, e@));
        }
    }
    assert(traces_view(traces@) =~= Seq::new(
        codes.len() as nat,
        |j: int| changed(before[j], codes@[j]@, t, e@),
    ));
}

/// Whether a chosen signal has the code `id` and the kind asked for.
fn is_chosen(codes: &Vec<String>, sizes: &Vec<u32>, id: &String, scalar: bool) -> (r: bool)
    requires
        codes.len() == sizes.len(),
    ensures
        r == chosen(strings_view(codes@), sizes@, id@, scalar),
{
    let n = codes.len();
    for j in 0..n
        invariant
            n == codes.len(),
            n == sizes.len(),
            forall|k: int|
                0 <= k < j ==> !(codes@[k]@ == id@ && #[trigger] sizes@[k] == sizes@[k] && (if scalar {
                    sizes@[k] == 1
                } else {
                    sizes@[k] > 1
                })),
    {
        let kind = if scalar {
            sizes[j] == 1
        } else {
            sizes[j] > 1
        };
        if kind && codes[j] == *id {
            assert(sizes@[j as int] == sizes@[j as int]);
            return true;
        }
    }
    false
}

/// Gathers the traces of the chosen signals, each given by its id code,
/// name and width, from the commands of a dump in their order; fails when
/// a command changes a chosen signal to an unsupported level.
pub fn collect(signals: Vec<(String, String, u32)>, events: &Vec<TraceEvent>) -> (r: Result<
    TraceCollection,
    TraceError,
>)
    ensures
        r matches Err(e) ==> e == TraceError::UnsupportedValue,
        r is Err <==> exists|k: int|
            0 <= k < events@.len() && #[trigger] unsupported(
                codes_of(signals@),
                sizes_of(signals@),
                events@[k]@,
            ),
        r matches Ok(c) ==> {
            &&& c.signal_names@.len() == signals@.len()
            &&& forall|j: int|
                0 <= j < signals@.len() ==> #[trigger] c.signal_names@[j] == (
                    signals@[j].0,
                    signals@[j].1,
                )
            &&& traces_view(c.traces@) == collected(
                codes_of(signals@),
                sizes_of(signals@),
                events_view(events@),
            ).0
        },
{
    let mut signal_names: Vec<(String, String)> = Vec::new();
    let mut codes: Vec<String> = Vec::new();
    let mut sizes: Vec<u32> = Vec::new();
    let mut traces: Vec<SignalTrace> = Vec::new();
    let n = signals.len();
    for j in 0..n
        invariant
            n == signals.len(),
            signal_names@.len() == j,
            codes@.len() == j,
            sizes@.len() == j,
            traces@.len() == j,
            forall|k: int|
                0 <= k < j ==> #[trigger] signal_names@[k] == (signals@[k].0, signals@[k].1),
            forall|k: int| 0 <= k < j ==> #[trigger] codes@[k] == signals@[k].0,
            forall|k: int| 0 <= k < j ==> #[trigger] sizes@[k] == signals@[k].2,
            forall|k: int|
                0 <= k < j ==> #[trigger] traces_view(traces@)[k] == empty_trace(signals@[k].2),
    {
        let (code, name, size) = &signals[j];
        signal_names.push((code.clone(), name.clone()));
        codes.push(code.clone());
        sizes.push(*size);
        let tr = if *size == 0 {
            let v: Vec<TimedValue<String>> = Vec::new();
            assert(v@.map_values(|x: TimedValue<String>| (x.time, x.value@)) =~= Seq::empty());
            SignalTrace::Strings(v)
        } else if *size == 1 {
            let v: Vec<TimedValue<bool>> = Vec::new();
            assert(v@.map_values(|x: TimedValue<bool>| (x.time, x.value)) =~= Seq::empty());
            SignalTrace::Bits(v)
        } else {
            let v: Vec<TimedValue<VectorValue>> = Vec::new();
            assert(v@.map_values(|x: TimedValue<VectorValue>| (x.time, x.value.levels()))
                =~= Seq::empty());
            SignalTrace::Vectors(v)
        };
        assert(tr.view_trace() == empty_trace(*size));
        let ghost old_traces = traces@;
        traces.push(tr);
        proof {
            assert(traces@ == old_traces.push(tr));
            assert forall|k: int| 0 <= k <= j implies #[trigger] traces_view(traces@)[k]
                == empty_trace(signals@[k].2) by {
                if k < j {
                    assert(traces@[k] == old_traces[k]);
                    assert(traces_view(old_traces)[k] == old_traces[k].view_trace());
                }
            }
        }
    }
    assert(strings_view(codes@) =~= codes_of(signals@));
    assert(sizes@ =~= sizes_of(signals@));
    assert(traces_view(traces@) =~= collected(codes_of(signals@), sizes_of(signals@), events_view(events@).take(0)).0);
    let mut timestamp: u64 = 0;
    let m = events.len();
    for k in 0..m
        invariant
            m == events.len(),
            strings_view(codes@) == codes_of(signals@),
            sizes@ == sizes_of(signals@),
            codes@.len() == signals@.len(),
            traces@.len() == signals@.len(),
            forall|i: int| 0 <= i < k ==> !#[trigger] unsupported(codes_of(signals@), sizes@, events@[i]@),
            (traces_view(traces@), timestamp) == collected(
                codes_of(signals@),
                sizes_of(signals@),
                events_view(events@).take(k as int),
            ),
    {
        proof {
            assert(events_view(events@).take(k + 1).drop_last() =~= events_view(events@).take(k as int));
            assert(events_view(events@).take(k + 1).last() == events@[k as int]@);
        }
        match &events[k] {
            TraceEvent::Timestamp(x) => {
                timestamp = *x;
            },
            TraceEvent::ChangeScalar(id, None) => {
                if is_chosen(&codes, &sizes, id, true) {
                    assert(unsupported(codes_of(signals@), sizes@, events@[k as int]@));
                    return Err(TraceError::UnsupportedValue);
                }
                apply_change(&mut traces, &codes, timestamp, &events[k]);
            },
            TraceEvent::ChangeVector(id, None) => {
                if is_chosen(&codes, &sizes, id, false) {
                    assert(unsupported(codes_of(signals@), sizes@, events@[k as int]@));
                    return Err(TraceError::UnsupportedValue);
                }
                apply_change(&mut traces, &codes, timestamp, &events[k]);
            },
            e => {
                apply_change(&mut traces, &codes, timestamp, e);
            },
        }
    }
    assert(events_view(events@).take(m as int) =~= events_view(events@));
    Ok(TraceCollection { signal_names, traces })
}

/// The paths of a list of dotted signal names.
pub open spec fn dump_paths(signals: Seq<Seq<char>>) -> Seq<Seq<Seq<char>>> {
    signals.map_values(|s: Seq<char>| split_on(s, '.'))
}

/// The paths of a list of split names, by their characters.
pub open spec fn paths_view(paths: Seq<Vec<String>>) -> Seq<Seq<Seq<char>>> {
    paths.map_values(|p: Vec<String>| strings_view(p@))
}

/// For each path, the id code and width of the variable a dump's header
/// declares there, or `None` where it declares none; `None` when the
/// header cannot be read.
pub uninterp spec fn dump_vars(paths: Seq<Seq<Seq<char>>>, dump: Seq<u8>) -> Option<
    Seq<Option<(Seq<char>, u32)>>,
>;

/// The commands of a dump after its header, up to the first that cannot
/// be read, and whether reading stopped at one that could not; `None` when
/// the header cannot be read.
pub uninterp spec fn dump_events(dump: Seq<u8>) -> Option<(Seq<EventView>, bool)>;

/// Found variables by their characters.
pub open spec fn vars_view(r: Option<Vec<Option<(String, u32)>>>) -> Option<
    Seq<Option<(Seq<char>, u32)>>,
> {
    match r {
        None => None,
        Some(v) => Some(
            v@.map_values(
                |x: Option<(String, u32)>| match x {
                    None => None,
                    Some((c, n)) => Some((c@, n)),
                },
            ),
        ),
    }
}

/// `vcd::Parser::parse_header` on the bytes, then `Header::find_var` for
/// each path, the code written with its `Display`: the contract names the
/// result [dump_vars] and claims one entry per path.
#[verifier::external_body]
fn read_vars(paths: &Vec<Vec<String>>, dump: &Vec<u8>) -> (r: Option<Vec<Option<(String, u32)>>>)
    requires
        forall|i: int| 0 <= i < paths@.len() ==> #[trigger] paths@[i]@.len() >= 1,
    ensures
        vars_view(r) == dump_vars(paths_view(paths@), dump@),
        r matches Some(v) ==> v@.len() == paths@.len(),
{
    let mut parser = Parser::new(dump.as_slice());
    let header = parser.parse_header().ok()?;
    Some(paths.iter().map(|p| header.find_var(p).map(|v| (v.code.to_string(), v.size))).collect())
}

/// `vcd::Parser::parse_header` on the bytes, then the parser's commands
/// up to the first error, each made a [TraceEvent] (codes written with
/// their `Display`, levels `0` and `1` kept as characters, others `None`),
/// and whether an error stopped them: the contract names the result
/// [dump_events].
#[verifier::external_body]
fn read_events(dump: &Vec<u8>) -> (r: Option<(Vec<TraceEvent>, bool)>)
    ensures
        (match r {
            Some((v, failed)) => Some((events_view(v@), failed)),
            None => None,
        }) == dump_events(dump@),
{
    let mut parser = Parser::new(dump.as_slice());
    parser.parse_header().ok()?;
    let level = |v: Value| match v { V0 => Some('0'), V1 => Some('1'), _ => None };
    let mut failed = false;
    Some((parser.map_while(|c| { failed = c.is_err(); c.ok() }).map(|c| match c {
        Timestamp(x) => TraceEvent::Timestamp(x),
        ChangeScalar(i, v) => TraceEvent::ChangeScalar(i.to_string(), level(v)),
        ChangeVector(i, v) => TraceEvent::ChangeVector(i.to_string(), v.into_iter().map(level).collect()),
        ChangeString(i, v) => TraceEvent::ChangeString(i.to_string(), v),
        _ => TraceEvent::Other,
    }).collect(), failed))
}

/// The codes of resolved variables.
pub open spec fn var_codes(vs: Seq<Option<(Seq<char>, u32)>>) -> Seq<Seq<char>> {
    vs.map_values(
        |x: Option<(Seq<char>, u32)>| match x {
            Some(v) => v.0,
            None => Seq::empty(),
        },
    )
}

/// The widths of resolved variables.
pub open spec fn var_sizes(vs: Seq<Option<(Seq<char>, u32)>>) -> Seq<u32> {
    vs.map_values(
        |x: Option<(Seq<char>, u32)>| match x {
            Some(v) => v.1,
            None => 0,
        },
    )
}

/// Whether every variable was found.
pub open spec fn all_found(vs: Seq<Option<(Seq<char>, u32)>>) -> bool {
    forall|j: int| 0 <= j < vs.len() ==> #[trigger] vs[j] is Some
}

impl TraceCollection {
    /// Reads the traces of the signals, given by dotted names, from the bytes
    /// of a value change dump: the names are resolved in the dump's header,
    /// then the commands after it are gathered as [collect] does.  Fails when
    /// the dump cannot be read, when a name is not in the header (the first
    /// such name is reported), and when a signal changes to an unsupported
    /// level; between a command that cannot be read and an unsupported
    /// level, the one met first in the dump is reported.
    pub fn parse(signals: &Vec<String>, dump: &Vec<u8>) -> (r: Result<TraceCollection, TraceError>)
        ensures
            ({
                let paths = dump_paths(strings_view(signals@));
                match dump_vars(paths, dump@) {
                    None => r == Err::<TraceCollection, TraceError>(TraceError::Unreadable),
                    Some(vs) => {
                        &&& vs.len() == signals@.len()
                        &&& !all_found(vs) ==> (r matches Err(TraceError::UnknownSignal(j)) && j
                            < vs.len() && vs[j as int] is None && forall|k: int|
                            0 <= k < j ==> #[trigger] vs[k] is Some)
                        &&& all_found(vs) && dump_events(dump@) is None ==> r == Err::<
                            TraceCollection,
                            TraceError,
                        >(TraceError::Unreadable)
                        &&& all_found(vs) && dump_events(dump@) is Some ==> {
                            let (es, failed) = dump_events(dump@)->0;
                            let bad_level = exists|k: int|
                                0 <= k < es.len() && #[trigger] unsupported(
                                    var_codes(vs),
                                    var_sizes(vs),
                                    es[k],
                                );
                            &&& r is Err <==> bad_level || failed
                            &&& bad_level ==> r == Err::<TraceCollection, TraceError>(
                                TraceError::UnsupportedValue,
                            )
                            &&& !bad_level && failed ==> r == Err::<TraceCollection, TraceError>(
                                TraceError::Unreadable,
                            )
                            &&& r matches Ok(c) ==> {
                                &&& c.signal_names@.len() == signals@.len()
                                &&& forall|j: int|
                                    0 <= j < signals@.len() ==> #[trigger] c.signal_names@[j].0@
                                        == var_codes(vs)[j] && c.signal_names@[j].1@ == signals@[j]@
                                &&& traces_view(c.traces@) == collected(
                                    var_codes(vs),
                                    var_sizes(vs),
                                    es,
                                ).0
                            }
                        }
                    },
                }
            }),
    {
        let mut paths: Vec<Vec<String>> = Vec::new();
        for i in 0..signals.len()
            invariant
                paths_view(paths@) == dump_paths(strings_view(signals@)).take(i as int),
                forall|k: int| 0 <= k < paths@.len() ==> #[trigger] paths@[k]@.len() >= 1,
        {
            let p = split_on_char(signals[i].as_str(), '.');
            proof {
                lemma_split_on_len(signals@[i as int]@, '.');
                assert(strings_view(p@).len() == p@.len());
            }
            let ghost before = paths@;
            paths.push(p);
            assert(paths_view(paths@) =~= dump_paths(strings_view(signals@)).take(i + 1)) by {
                assert(paths@ == before.push(p));
                assert(paths_view(paths@) =~= paths_view(before).push(strings_view(p@)));
            }
        }
        assert(dump_paths(strings_view(signals@)).take(signals.len() as int) =~= dump_paths(
            strings_view(signals@),
        ));
        let vars = match read_vars(&paths, dump) {
            None => {
                return Err(TraceError::Unreadable);
            },
            Some(v) => v,
        };
        let ghost vs = vars_view(Some(vars))->0;
        assert(vs.len() == signals@.len());
        let mut chosen: Vec<(String, String, u32)> = Vec::new();
        for j in 0..vars.len()
            invariant
                vs == vars_view(Some(vars))->0,
                vars_view(Some(vars)) == dump_vars(paths_view(paths@), dump@),
                paths_view(paths@) == dump_paths(strings_view(signals@)),
                vs.len() == signals@.len(),
                chosen@.len() == j,
                forall|k: int| 0 <= k < j ==> #[trigger] vs[k] is Some,
                forall|k: int| 0 <= k < j ==> #[trigger] codes_of(chosen@)[k] == var_codes(vs)[k],
                forall|k: int| 0 <= k < j ==> #[trigger] sizes_of(chosen@)[k] == var_sizes(vs)[k],
                forall|k: int| 0 <= k < j ==> #[trigger] chosen@[k].1@ == signals@[k]@,
        {
            assert(vs[j as int] == match vars@[j as int] {
                None => None,
                Some((c, n)) => Some((c@, n)),
            });
            match &vars[j] {
                None => {
                    return Err(TraceError::UnknownSignal(j));
                },
                Some((code, size)) => {
                    let ghost before = chosen@;
                    chosen.push((code.clone(), signals[j].clone(), *size));
                    proof {
                        assert(chosen@ == before.push((*code, signals@[j as int], *size)));
                        assert forall|k: int| 0 <= k <= j implies #[trigger] codes_of(chosen@)[k]
                            == var_codes(vs)[k] by {
                            if k < j {
                                assert(chosen@[k] == before[k]);
                                assert(codes_of(before)[k] == var_codes(vs)[k]);
                            }
                        }
                        assert forall|k: int| 0 <= k <= j implies #[trigger] sizes_of(chosen@)[k]
                            == var_sizes(vs)[k] by {
                            if k < j {
                                assert(chosen@[k] == before[k]);
                                assert(sizes_of(before)[k] == var_sizes(vs)[k]);
                            }
                        }
                        assert forall|k: int| 0 <= k <= j implies #[trigger] chosen@[k].1@
                            == signals@[k]@ by {
                            if k < j {
                                assert(chosen@[k] == before[k]);
                            }
                        }
                    }
                },
            }
        }
        assert(codes_of(chosen@) =~= var_codes(vs));
        assert(sizes_of(chosen@) =~= var_sizes(vs));
        assert(all_found(vs));
        let (events, failed) = match read_events(dump) {
            None => {
                return Err(TraceError::Unreadable);
            },
            Some(e) => e,
        };
        let ghost names = chosen@;
        let r = collect(chosen, &events);
        proof {
            let es = (dump_events(dump@)->0).0;
            assert(es == events_view(events@));
            assert(codes_of(names) == var_codes(vs));
            assert(sizes_of(names) == var_sizes(vs));
            if r is Err {
                let k = choose|k: int|
                    0 <= k < events@.len() && #[trigger] unsupported(
                        codes_of(names),
                        sizes_of(names),
                        events@[k]@,
                    );
                assert(es[k] == events@[k]@);
                assert(unsupported(var_codes(vs), var_sizes(vs), es[k]));
            }
            if exists|k: int| 0 <= k < es.len() && #[trigger] unsupported(var_codes(vs), var_sizes(vs), es[k]) {
                let k = choose|k: int| 0 <= k < es.len() && #[trigger] unsupported(var_codes(vs), var_sizes(vs), es[k]);
                assert(es[k] == events@[k]@);
                assert(unsupported(codes_of(names), sizes_of(names), events@[k]@));
            }
            if let Ok(c) = &r {
                assert forall|j: int| 0 <= j < signals@.len() implies #[trigger] c.signal_names@[j].0@
                    == var_codes(vs)[j] && c.signal_names@[j].1@ == signals@[j]@ by {
                    assert(c.signal_names@[j] == (names[j].0, names[j].1));
                    assert(codes_of(names)[j] == names[j].0@);
                }
            }
        }
        if r.is_ok() && failed {
            return Err(TraceError::Unreadable);
        }
        r
    }
}

} // verus!
