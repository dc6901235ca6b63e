//! Note-event extraction: walking a part's timeline into a flat list of
//! timed sonic events.
//!
//! Time here is measured in whole output samples at the render sample rate.
//! A duration of `t` ticks at `divisions` ticks per quarter and `bpm`
//! quarters per minute spans `t * 60 * sample_rate / (divisions * bpm)`
//! seconds' worth of samples, rounded half-up to a whole sample.  Pitch is
//! carried as a MIDI semitone number and loudness as a MIDI velocity; the
//! unverified synthesis layer turns both into concrete frequencies and
//! amplitudes.

use vstd::prelude::*;

use crate::music::{
    pitch_in_range, spec_dynamics_velocity, spec_semitone, DirectionType, Measure, MeasureItem,
    Part,
};
use crate::RenderContext;
use vstd::hash_map::HashMapWithView;

verus! {

broadcast use vstd::std_specs::hash::group_hash_axioms;

/// Why rendering refused a timeline.
#[derive(Clone, Copy, Debug, PartialEq, Eq, Structural)]
pub enum RenderError {
    /// A metronome direction set a tempo of zero.
    NonPositiveTempo,
    /// The render context carries a zero sample rate.
    NonPositiveSampleRate,
    /// A pitched note leaves the MIDI semitone range.
    PitchOutOfRange,
    /// A time computation leaves the representable sample range.
    TimeOverflow,
    /// A measure's attributes carry a zero tick resolution.
    ZeroDivisions,
}

/// One resolved sonic event: an optional semitone, a velocity, and the
/// absolute start and end of its sounding window, in samples.
#[derive(Clone, Copy, Debug, PartialEq, Eq, Structural)]
pub struct NoteEvent {
    pub pitch: Option<u8>,
    pub velocity: u8,
    pub start: i64,
    pub end: i64,
}

/// An open tie: where the tied note started and how long it has run, in
/// samples.
#[derive(Clone, Copy, Debug)]
pub struct TieEntry {
    pub start: i64,
    pub duration: i64,
}

/// The cursor state a traversal carries, as the specification sees it.
pub ghost struct SpecState {
    /// Absolute position of the cursor, in samples.
    pub cursor: i64,
    /// Position cached at the last non-chord note: chord members start here.
    pub anchor: i64,
    /// Current tempo in quarter notes per minute.
    pub tempo_bpm: u32,
    /// Current MIDI velocity.
    pub velocity: u8,
    /// Ticks per quarter note.
    pub divisions: u32,
    /// Open ties, keyed by semitone.
    pub ties: Map<u8, TieEntry>,
}

/// The state a traversal starts from: time zero, 120 beats per minute,
/// mezzo-forte, 480 ticks per quarter, no open ties.
pub open spec fn spec_initial_state() -> SpecState {
    SpecState {
        cursor: 0,
        anchor: 0,
        tempo_bpm: 120,
        velocity: 80,
        divisions: 480,
        ties: Map::<u8, TieEntry>::empty(),
    }
}

/// A tick count converted to samples, rounded half-up:
/// `ticks * 60 * sample_rate / (divisions * bpm)`.
pub open spec fn spec_ticks_to_samples(ticks: int, divisions: int, bpm: int, sr: int) -> int {
    (2 * (ticks * 60 * sr) + divisions * bpm) / (2 * (divisions * bpm))
}

/// What one timeline item does to the state, and the events it emits.
/// `Err` reports the first configuration fault: a zero tempo, a pitch
/// outside the MIDI range, or a time outside the representable window.
pub open spec fn spec_step(st: SpecState, item: MeasureItem, sr: int) -> Result<
    (SpecState, Seq<NoteEvent>),
    RenderError,
> {
    match item {
        MeasureItem::Note(n) => {
            let anchor: i64 = if !n.is_chord {
                st.cursor
            } else {
                st.anchor
            };
            let dur = spec_ticks_to_samples(
                n.duration as int,
                st.divisions as int,
                st.tempo_bpm as int,
                sr,
            );
            if dur > i64::MAX {
                Err(RenderError::TimeOverflow)
            } else {
                let new_cursor = if !n.is_chord {
                    st.cursor + dur
                } else {
                    st.cursor as int
                };
                if new_cursor > i64::MAX {
                    Err(RenderError::TimeOverflow)
                } else {
                    let stepped = SpecState {
                        anchor,
                        cursor: new_cursor as i64,
                        ..st
                    };
                    match n.pitch {
                        Some(p) => {
                            if !pitch_in_range(p) {
                                Err(RenderError::PitchOutOfRange)
                            } else {
                                let semi = spec_semitone(p) as u8;
                                spec_step_pitched(st, stepped, n.tie, semi, anchor, dur as i64)
                            }
                        },
                        None => {
                            if n.unpitched is Some {
                                if anchor + dur > i64::MAX {
                                    Err(RenderError::TimeOverflow)
                                } else {
                                    Ok(
                                        (
                                            stepped,
                                            seq![
                                                NoteEvent {
                                                    pitch: None,
                                                    velocity: st.velocity,
                                                    start: anchor,
                                                    end: (anchor + dur) as i64,
                                                },
                                            ],
                                        ),
                                    )
                                }
                            } else {
                                Ok((stepped, Seq::<NoteEvent>::empty()))
                            }
                        },
                    }
                }
            }
        },
        MeasureItem::Direction(dir) => {
            match dir.kind {
                DirectionType::Metronome { beat_unit: _, per_minute } => {
                    if per_minute == 0 {
                        Err(RenderError::NonPositiveTempo)
                    } else {
                        Ok((SpecState { tempo_bpm: per_minute, ..st }, Seq::<NoteEvent>::empty()))
                    }
                },
                DirectionType::Dynamics(v) => {
                    Ok(
                        (
                            SpecState { velocity: spec_dynamics_velocity(v) as u8, ..st },
                            Seq::<NoteEvent>::empty(),
                        ),
                    )
                },
                DirectionType::Words(_) => Ok((st, Seq::<NoteEvent>::empty())),
            }
        },
        MeasureItem::Forward(f) => {
            let dur = spec_ticks_to_samples(
                f.duration as int,
                st.divisions as int,
                st.tempo_bpm as int,
                sr,
            );
            if dur > i64::MAX || st.cursor + dur > i64::MAX {
                Err(RenderError::TimeOverflow)
            } else {
                Ok((SpecState { cursor: (st.cursor + dur) as i64, ..st }, Seq::<NoteEvent>::empty()))
            }
        },
        MeasureItem::Backup(b) => {
            let dur = spec_ticks_to_samples(
                b.duration as int,
                st.divisions as int,
                st.tempo_bpm as int,
                sr,
            );
            if dur > i64::MAX || st.cursor - dur < i64::MIN {
                Err(RenderError::TimeOverflow)
            } else {
                Ok((SpecState { cursor: (st.cursor - dur) as i64, ..st }, Seq::<NoteEvent>::empty()))
            }
        },
        MeasureItem::Barline(_) => Ok((st, Seq::<NoteEvent>::empty())),
    }
}

/// The pitched-note part of a step: tie starts are held back, tie stops
/// close a matching open tie into one long event, and everything else
/// sounds on its own.  An unmatched tie stop falls back to an ordinary,
/// independent event.
pub open spec fn spec_step_pitched(
    st: SpecState,
    stepped: SpecState,
    tie: Option<crate::music::StartStop>,
    semi: u8,
    anchor: i64,
    dur: i64,
) -> Result<(SpecState, Seq<NoteEvent>), RenderError> {
    match tie {
        Some(crate::music::StartStop::Start) => {
            Ok(
                (
                    SpecState {
                        ties: stepped.ties.insert(semi, TieEntry { start: anchor, duration: dur }),
                        ..stepped
                    },
                    Seq::<NoteEvent>::empty(),
                ),
            )
        },
        Some(crate::music::StartStop::Stop) => {
            if st.ties.dom().contains(semi) {
                let entry = st.ties[semi];
                if entry.start + entry.duration + dur > i64::MAX || entry.start + entry.duration
                    + dur < i64::MIN {
                    Err(RenderError::TimeOverflow)
                } else {
                    Ok(
                        (
                            SpecState { ties: stepped.ties.remove(semi), ..stepped },
                            seq![
                                NoteEvent {
                                    pitch: Some(semi),
                                    velocity: st.velocity,
                                    start: entry.start,
                                    end: (entry.start + entry.duration + dur) as i64,
                                },
                            ],
                        ),
                    )
                }
            } else {
                if anchor + dur > i64::MAX {
                    Err(RenderError::TimeOverflow)
                } else {
                    Ok(
                        (
                            stepped,
                            seq![
                                NoteEvent {
                                    pitch: Some(semi),
                                    velocity: st.velocity,
                                    start: anchor,
                                    end: (anchor + dur) as i64,
                                },
                            ],
                        ),
                    )
                }
            }
        },
        None => {
            if anchor + dur > i64::MAX {
                Err(RenderError::TimeOverflow)
            } else {
                Ok(
                    (
                        stepped,
                        seq![
                            NoteEvent {
                                pitch: Some(semi),
                                velocity: st.velocity,
                                start: anchor,
                                end: (anchor + dur) as i64,
                            },
                        ],
                    ),
                )
            }
        },
    }
}

/// The traversal of an item run: a left fold of [`spec_step`], collecting
/// emitted events in order.
pub open spec fn spec_extract_items(items: Seq<MeasureItem>, st: SpecState, sr: int) -> Result<
    (SpecState, Seq<NoteEvent>),
    RenderError,
>
    decreases items.len(),
{
    if items.len() == 0 {
        Ok((st, Seq::<NoteEvent>::empty()))
    } else {
        match spec_step(st, items[0], sr) {
            Err(e) => Err(e),
            Ok((st2, evs)) => match spec_extract_items(items.drop_first(), st2, sr) {
                Err(e) => Err(e),
                Ok((st3, rest)) => Ok((st3, evs + rest)),
            },
        }
    }
}

/// The traversal of a measure run: items measure by measure, the state
/// carried across measure boundaries.
pub open spec fn spec_extract_measures(ms: Seq<Measure>, st: SpecState, sr: int) -> Result<
    (SpecState, Seq<NoteEvent>),
    RenderError,
>
    decreases ms.len(),
{
    if ms.len() == 0 {
        Ok((st, Seq::<NoteEvent>::empty()))
    } else {
        match spec_extract_items(ms[0].items@, st, sr) {
            Err(e) => Err(e),
            Ok((st2, evs)) => match spec_extract_measures(ms.drop_first(), st2, sr) {
                Err(e) => Err(e),
                Ok((st3, rest)) => Ok((st3, evs + rest)),
            },
        }
    }
}

/// The events a part's timeline resolves to, from the initial state.
pub open spec fn spec_part_events(p: Part, sr: int) -> Result<
    (SpecState, Seq<NoteEvent>),
    RenderError,
> {
    spec_extract_measures(p.measures@, spec_initial_state(), sr)
}

#[verifier::spinoff_prover]
#[verifier::rlimit(100)]
proof fn lemma_extract_items_snoc(items: Seq<MeasureItem>, x: MeasureItem, st: SpecState, sr: int)
    ensures
        spec_extract_items(items.push(x), st, sr) == (match spec_extract_items(items, st, sr) {
            Err(e) => Err(e),
            Ok((st2, evs)) => match spec_step(st2, x, sr) {
                Err(e) => Err::<(SpecState, Seq<NoteEvent>), RenderError>(e),
                Ok((st3, evs2)) => Ok((st3, evs + evs2)),
            },
        }),
    decreases items.len(),
{
    let pushed = items.push(x);
    if items.len() == 0 {
        assert(pushed[0] == x);
        assert(pushed.drop_first() =~= Seq::<MeasureItem>::empty());
        match spec_step(st, x, sr) {
            Err(_) => {},
            Ok((st3, evs2)) => {
                assert(spec_extract_items(Seq::<MeasureItem>::empty(), st3, sr) == Ok::<
                    (SpecState, Seq<NoteEvent>),
                    RenderError,
                >((st3, Seq::<NoteEvent>::empty())));
                assert(Seq::<NoteEvent>::empty() + evs2 =~= evs2);
                assert(evs2 + Seq::<NoteEvent>::empty() =~= evs2);
            },
        }
    } else {
        assert(pushed[0] == items[0]);
        assert(pushed.drop_first() =~= items.drop_first().push(x));
        match spec_step(st, items[0], sr) {
            Err(_) => {},
            Ok((st2, evs)) => {
                lemma_extract_items_snoc(items.drop_first(), x, st2, sr);
                match spec_extract_items(items.drop_first(), st2, sr) {
                    Err(_) => {},
                    Ok((st3, rest)) => {
                        match spec_step(st3, x, sr) {
                            Err(_) => {},
                            Ok((st4, evs2)) => {
                                assert(evs + (rest + evs2) =~= (evs + rest) + evs2);
                            },
                        }
                    },
                }
            },
        }
    }
}

#[verifier::spinoff_prover]
#[verifier::rlimit(100)]
proof fn lemma_extract_measures_snoc(ms: Seq<Measure>, m: Measure, st: SpecState, sr: int)
    ensures
        spec_extract_measures(ms.push(m), st, sr) == (match spec_extract_measures(ms, st, sr) {
            Err(e) => Err(e),
            Ok((st2, evs)) => match spec_extract_items(m.items@, st2, sr) {
                Err(e) => Err::<(SpecState, Seq<NoteEvent>), RenderError>(e),
                Ok((st3, evs2)) => Ok((st3, evs + evs2)),
            },
        }),
    decreases ms.len(),
{
    let pushed = ms.push(m);
    if ms.len() == 0 {
        assert(pushed[0] == m);
        assert(pushed.drop_first() =~= Seq::<Measure>::empty());
        match spec_extract_items(m.items@, st, sr) {
            Err(_) => {},
            Ok((st3, evs2)) => {
                assert(spec_extract_measures(Seq::<Measure>::empty(), st3, sr) == Ok::<
                    (SpecState, Seq<NoteEvent>),
                    RenderError,
                >((st3, Seq::<NoteEvent>::empty())));
                assert(Seq::<NoteEvent>::empty() + evs2 =~= evs2);
                assert(evs2 + Seq::<NoteEvent>::empty() =~= evs2);
            },
        }
    } else {
        assert(pushed[0] == ms[0]);
        assert(pushed.drop_first() =~= ms.drop_first().push(m));
        match spec_extract_items(ms[0].items@, st, sr) {
            Err(_) => {},
            Ok((st2, evs)) => {
                lemma_extract_measures_snoc(ms.drop_first(), m, st2, sr);
                match spec_extract_measures(ms.drop_first(), st2, sr) {
                    Err(_) => {},
                    Ok((st3, rest)) => {
                        match spec_extract_items(m.items@, st3, sr) {
                            Err(_) => {},
                            Ok((st4, evs2)) => {
                                assert(evs + (rest + evs2) =~= (evs + rest) + evs2);
                            },
                        }
                    },
                }
            },
        }
    }
}

/// The mutable cursor a traversal owns: elapsed time, tempo, dynamics,
/// tick resolution and the open ties.
pub struct RenderState {
    /// Absolute position of the cursor, in samples.
    pub cursor: i64,
    /// Position cached at the last non-chord note.
    pub saved_cursor: i64,
    /// Current tempo in quarter notes per minute; always positive.
    pub tempo_bpm: u32,
    /// Current MIDI velocity.
    pub velocity: u8,
    /// Ticks per quarter note; always positive.
    pub divisions: u32,
    /// Open ties, keyed by semitone: start and accumulated duration.
    pub ongoing_ties: HashMapWithView<u8, TieEntry>,
}

impl RenderState {
    /// The specification-level view of this state.
    pub open spec fn view_state(&self) -> SpecState {
        SpecState {
            cursor: self.cursor,
            anchor: self.saved_cursor,
            tempo_bpm: self.tempo_bpm,
            velocity: self.velocity,
            divisions: self.divisions,
            ties: self.ongoing_ties@,
        }
    }

    /// The starting cursor: time zero, 120 beats per minute, mezzo-forte
    /// velocity, 480 ticks per quarter, no open ties.
    pub fn new() -> (s: RenderState)
        ensures
            s.view_state() == spec_initial_state(),
    {
        let s = RenderState {
            cursor: 0,
            saved_cursor: 0,
            tempo_bpm: 120,
            velocity: 80,
            divisions: 480,
            ongoing_ties: HashMapWithView::<u8, TieEntry>::new(),
        };
        proof {
            assert(s.view_state().ties =~= spec_initial_state().ties);
        }
        s
    }

    /// Remember the cursor as the chord anchor.
    pub fn save_cursor(&mut self)
        ensures
            final(self).saved_cursor == old(self).cursor,
            final(self).cursor == old(self).cursor,
            final(self).tempo_bpm == old(self).tempo_bpm,
            final(self).velocity == old(self).velocity,
            final(self).divisions == old(self).divisions,
            final(self).ongoing_ties@ == old(self).ongoing_ties@,
    {
        self.saved_cursor = self.cursor;
    }

    /// Convert a tick duration to samples at the current tempo and
    /// resolution, rounding half-up; `Err` when the count does not fit.
    pub fn ticks_to_samples(&self, duration: u32, sample_rate: u32) -> (r: Result<
        i64,
        RenderError,
    >)
        requires
            self.tempo_bpm >= 1,
            self.divisions >= 1,
            sample_rate >= 1,
        ensures
            ({
                let v = spec_ticks_to_samples(
                    duration as int,
                    self.divisions as int,
                    self.tempo_bpm as int,
                    sample_rate as int,
                );
                match r {
                    Ok(s) => s == v && 0 <= v <= i64::MAX,
                    Err(e) => v > i64::MAX && e == RenderError::TimeOverflow,
                }
            }),
    {
        let dv: u128 = self.divisions as u128;
        let bp: u128 = self.tempo_bpm as u128;
        let du: u128 = duration as u128;
        let sr128: u128 = sample_rate as u128;
        proof {
            assert(dv * bp >= 1) by (nonlinear_arith)
                requires
                    dv >= 1,
                    bp >= 1,
            ;
            assert(dv * bp < 0x10000000000000000u128) by (nonlinear_arith)
                requires
                    dv < 0x100000000u128,
                    bp < 0x100000000u128,
            ;
            assert(du * 60u128 * sr128 < 0x100000000000000000000u128) by (nonlinear_arith)
                requires
                    du < 0x100000000u128,
                    sr128 < 0x100000000u128,
            ;
        }
        let den: u128 = dv * bp;
        let num: u128 = 2u128 * (du * 60u128 * sr128) + den;
        let v: u128 = num / (2u128 * den);
        proof {
            assert(den >= 1);
            assert(num == 2 * (duration as int * 60 * sample_rate as int) + den);
            assert(v == spec_ticks_to_samples(
                duration as int,
                self.divisions as int,
                self.tempo_bpm as int,
                sample_rate as int,
            ));
        }
        if v > i64::MAX as u128 {
            Err(RenderError::TimeOverflow)
        } else {
            Ok(v as i64)
        }
    }
}

} // verus!

verus! {

/// What every reachable traversal state satisfies: positive tempo and
/// resolution, and open ties whose accumulated duration is a sample count.
pub open spec fn state_wf(st: SpecState) -> bool {
    &&& st.tempo_bpm >= 1
    &&& st.divisions >= 1
    &&& forall|k: u8| st.ties.dom().contains(k) ==> (#[trigger] st.ties[k]).duration >= 0
}

/// Whether the pitch resolves to a sounding MIDI note.
fn pitch_range_check(p: &crate::music::Pitch) -> (b: bool)
    ensures
        b == pitch_in_range(*p),
{
    let tone: i32 = p.step.to_semitone() as i32;
    let alter: i32 = match p.alter {
        Some(a) => a as i32,
        None => 0,
    };
    let head: i32 = tone + alter;
    let oct: i32 = (p.octave as i32 + 1) * 12;
    let total: i32 = head + oct;
    0 < total && total <= 127 && -128 <= head && head <= 127 && -128 <= oct && oct <= 127
}

/// Walk one timeline item: update the cursor state and append whatever
/// events it emits.  Mirrors [`spec_step`] exactly.
#[verifier::spinoff_prover]
#[verifier::rlimit(100)]
fn apply_item(
    state: &mut RenderState,
    events: &mut Vec<NoteEvent>,
    item: &MeasureItem,
    sample_rate: u32,
) -> (r: Result<(), RenderError>)
    requires
        state_wf(old(state).view_state()),
        sample_rate >= 1,
    ensures
        (match spec_step(old(state).view_state(), *item, sample_rate as int) {
            Ok((st2, evs)) => {
                &&& r is Ok
                &&& final(state).view_state() == st2
                &&& final(events)@ == old(events)@ + evs
                &&& state_wf(st2)
            },
            Err(e) => r == Err::<(), RenderError>(e),
        }),
{
    match item {
        MeasureItem::Note(note) => {
            if !note.is_chord {
                state.save_cursor();
            }
            let anchor: i64 = state.saved_cursor;
            let dur: i64 = match state.ticks_to_samples(note.duration, sample_rate) {
                Ok(d) => d,
                Err(e) => {
                    return Err(e);
                },
            };
            let new_cursor: i64 = if !note.is_chord {
                match state.cursor.checked_add(dur) {
                    Some(c) => c,
                    None => {
                        return Err(RenderError::TimeOverflow);
                    },
                }
            } else {
                state.cursor
            };
            match &note.pitch {
                Some(p) => {
                    if !pitch_range_check(p) {
                        return Err(RenderError::PitchOutOfRange);
                    }
                    let semi: u8 = p.to_semitone();
                    match &note.tie {
                        Some(crate::music::StartStop::Start) => {
                            state.ongoing_ties.insert(
                                semi,
                                TieEntry { start: anchor, duration: dur },
                            );
                        },
                        Some(crate::music::StartStop::Stop) => {
                            let entry_opt: Option<TieEntry> = match state.ongoing_ties.get(&semi) {
                                Some(e) => Some(*e),
                                None => None,
                            };
                            match entry_opt {
                                Some(entry) => {
                                    let sounded: i64 = match entry.start.checked_add(
                                        entry.duration,
                                    ) {
                                        Some(s) => s,
                                        None => {
                                            return Err(RenderError::TimeOverflow);
                                        },
                                    };
                                    let end: i64 = match sounded.checked_add(dur) {
                                        Some(e) => e,
                                        None => {
                                            return Err(RenderError::TimeOverflow);
                                        },
                                    };
                                    events.push(
                                        NoteEvent {
                                            pitch: Some(semi),
                                            velocity: state.velocity,
                                            start: entry.start,
                                            end,
                                        },
                                    );
                                    state.ongoing_ties.remove(&semi);
                                },
                                None => {
                                    let end: i64 = match anchor.checked_add(dur) {
                                        Some(e) => e,
                                        None => {
                                            return Err(RenderError::TimeOverflow);
                                        },
                                    };
                                    events.push(
                                        NoteEvent {
                                            pitch: Some(semi),
                                            velocity: state.velocity,
                                            start: anchor,
                                            end,
                                        },
                                    );
                                },
                            }
                        },
                        None => {
                            let end: i64 = match anchor.checked_add(dur) {
                                Some(e) => e,
                                None => {
                                    return Err(RenderError::TimeOverflow);
                                },
                            };
                            events.push(
                                NoteEvent {
                                    pitch: Some(semi),
                                    velocity: state.velocity,
                                    start: anchor,
                                    end,
                                },
                            );
                        },
                    }
                },
                None => {
                    if note.unpitched.is_some() {
                        let end: i64 = match anchor.checked_add(dur) {
                            Some(e) => e,
                            None => {
                                return Err(RenderError::TimeOverflow);
                            },
                        };
                        events.push(
                            NoteEvent { pitch: None, velocity: state.velocity, start: anchor, end },
                        );
                    }
                },
            }
            state.cursor = new_cursor;
            proof {
                assert(final(events)@ =~= old(events)@ + spec_step(
                    old(state).view_state(),
                    *item,
                    sample_rate as int,
                ).unwrap().1);
            }
            Ok(())
        },
        MeasureItem::Direction(dir) => {
            match &dir.kind {
                DirectionType::Metronome { beat_unit: _, per_minute } => {
                    if *per_minute == 0 {
                        return Err(RenderError::NonPositiveTempo);
                    }
                    state.tempo_bpm = *per_minute;
                },
                DirectionType::Dynamics(v) => {
                    state.velocity = v.velocity();
                },
                DirectionType::Words(_) => {},
            }
            proof {
                assert(final(events)@ =~= old(events)@ + Seq::<NoteEvent>::empty());
            }
            Ok(())
        },
        MeasureItem::Forward(f) => {
            let dur: i64 = match state.ticks_to_samples(f.duration, sample_rate) {
                Ok(d) => d,
                Err(e) => {
                    return Err(e);
                },
            };
            let new_cursor: i64 = match state.cursor.checked_add(dur) {
                Some(c) => c,
                None => {
                    return Err(RenderError::TimeOverflow);
                },
            };
            state.cursor = new_cursor;
            proof {
                assert(final(events)@ =~= old(events)@ + Seq::<NoteEvent>::empty());
            }
            Ok(())
        },
        MeasureItem::Backup(b) => {
            let dur: i64 = match state.ticks_to_samples(b.duration, sample_rate) {
                Ok(d) => d,
                Err(e) => {
                    return Err(e);
                },
            };
            let new_cursor: i64 = match state.cursor.checked_sub(dur) {
                Some(c) => c,
                None => {
                    return Err(RenderError::TimeOverflow);
                },
            };
            state.cursor = new_cursor;
            proof {
                assert(final(events)@ =~= old(events)@ + Seq::<NoteEvent>::empty());
            }
            Ok(())
        },
        MeasureItem::Barline(_) => {
            proof {
                assert(final(events)@ =~= old(events)@ + Seq::<NoteEvent>::empty());
            }
            Ok(())
        },
    }
}

/// Walk a part's measures into the flat, ordered list of note events it
/// resolves to; time in samples at the context's sample rate.  A zero
/// sample rate, a zero tempo, a pitch outside the MIDI range or a time
/// outside the representable window is rejected.
pub fn extract_note_events(part: &Part, ctx: &RenderContext) -> (r: Result<
    Vec<NoteEvent>,
    RenderError,
>)
    ensures
        ctx.sample_rate == 0 ==> r == Err::<Vec<NoteEvent>, RenderError>(
            RenderError::NonPositiveSampleRate,
        ),
        ctx.sample_rate >= 1 ==> (match spec_part_events(*part, ctx.sample_rate as int) {
            Ok((st, evs)) => r is Ok && r.unwrap()@ == evs,
            Err(e) => r == Err::<Vec<NoteEvent>, RenderError>(e),
        }),
{
    if ctx.sample_rate == 0 {
        return Err(RenderError::NonPositiveSampleRate);
    }
    let sr = ctx.sample_rate;
    let mut state = RenderState::new();
    let mut events: Vec<NoteEvent> = Vec::new();
    let ghost init = spec_initial_state();
    let mut mi: usize = 0;
    while mi < part.measures.len()
        invariant
            mi <= part.measures@.len(),
            sr >= 1,
            sr == ctx.sample_rate,
            init == spec_initial_state(),
            state_wf(state.view_state()),
            spec_extract_measures(part.measures@.subrange(0, mi as int), init, sr as int) == Ok::<
                (SpecState, Seq<NoteEvent>),
                RenderError,
            >((state.view_state(), events@)),
        decreases part.measures@.len() - mi,
    {
        let ghost st_m = state.view_state();
        let ghost evs_m = events@;
        let measure = &part.measures[mi];
        let mut ii: usize = 0;
        proof {
            assert(measure.items@.subrange(0, 0) =~= Seq::<MeasureItem>::empty());
            assert(events@.subrange(evs_m.len() as int, events@.len() as int) =~= Seq::<
                NoteEvent,
            >::empty());
            assert(events@.subrange(0, evs_m.len() as int) =~= evs_m);
        }
        while ii < measure.items.len()
            invariant
                ii <= measure.items@.len(),
                sr >= 1,
                sr == ctx.sample_rate,
                init == spec_initial_state(),
                mi < part.measures@.len(),
                *measure == part.measures@[mi as int],
                spec_extract_measures(part.measures@.subrange(0, mi as int), init, sr as int)
                    == Ok::<(SpecState, Seq<NoteEvent>), RenderError>((st_m, evs_m)),
                state_wf(state.view_state()),
                evs_m.len() <= events@.len(),
                spec_extract_items(measure.items@.subrange(0, ii as int), st_m, sr as int) == Ok::<
                    (SpecState, Seq<NoteEvent>),
                    RenderError,
                >((state.view_state(), events@.subrange(evs_m.len() as int, events@.len() as int))),
                events@.subrange(0, evs_m.len() as int) == evs_m,
            decreases measure.items@.len() - ii,
        {
            let ghost st_before = state.view_state();
            let ghost evs_before = events@;
            let item = &measure.items[ii];
            match apply_item(&mut state, &mut events, item, sr) {
                Ok(_) => {},
                Err(e) => {
                    proof {
                        lemma_prefix_err(
                            measure.items@,
                            ii as int,
                            st_m,
                            st_before,
                            evs_m,
                            evs_before,
                            sr as int,
                            part.measures@,
                            mi as int,
                            init,
                        );
                    }
                    return Err(e);
                },
            }
            proof {
                let pre = measure.items@.subrange(0, ii as int);
                let cur = measure.items@.subrange(0, ii + 1);
                assert(cur =~= pre.push(measure.items@[ii as int]));
                lemma_extract_items_snoc(pre, measure.items@[ii as int], st_m, sr as int);
                let delta = spec_step(st_before, measure.items@[ii as int], sr as int).unwrap().1;
                assert(events@.subrange(evs_before.len() as int, events@.len() as int) =~= delta);
                assert(events@.subrange(evs_m.len() as int, events@.len() as int) =~= evs_before
                    .subrange(evs_m.len() as int, evs_before.len() as int) + events@.subrange(
                    evs_before.len() as int,
                    events@.len() as int,
                ));
                assert(events@.subrange(0, evs_m.len() as int) =~= evs_m);
            }
            ii = ii + 1;
        }
        proof {
            let pre = part.measures@.subrange(0, mi as int);
            let cur = part.measures@.subrange(0, mi + 1);
            assert(cur =~= pre.push(part.measures@[mi as int]));
            lemma_extract_measures_snoc(pre, part.measures@[mi as int], init, sr as int);
            assert(measure.items@.subrange(0, measure.items@.len() as int) =~= measure.items@);
            assert(events@ =~= evs_m + events@.subrange(evs_m.len() as int, events@.len() as int));
        }
        mi = mi + 1;
    }
    proof {
        assert(part.measures@.subrange(0, part.measures@.len() as int) =~= part.measures@);
    }
    Ok(events)
}

/// When a step fails, the whole traversal fails with the same error.
#[verifier::spinoff_prover]
proof fn lemma_prefix_err(
    items: Seq<MeasureItem>,
    ii: int,
    st_m: SpecState,
    st_before: SpecState,
    evs_m: Seq<NoteEvent>,
    evs_before: Seq<NoteEvent>,
    sr: int,
    measures: Seq<Measure>,
    mi: int,
    init: SpecState,
)
    requires
        0 <= ii < items.len(),
        0 <= mi < measures.len(),
        spec_extract_items(items.subrange(0, ii), st_m, sr) == Ok::<
            (SpecState, Seq<NoteEvent>),
            RenderError,
        >((st_before, evs_before.subrange(evs_m.len() as int, evs_before.len() as int))),
        evs_m.len() <= evs_before.len(),
        spec_extract_measures(measures.subrange(0, mi), init, sr) == Ok::<
            (SpecState, Seq<NoteEvent>),
            RenderError,
        >((st_m, evs_m)),
        measures[mi].items@ == items,
        spec_step(st_before, items[ii], sr) is Err,
    ensures
        spec_extract_measures(measures, init, sr) == Err::<
            (SpecState, Seq<NoteEvent>),
            RenderError,
        >(spec_step(st_before, items[ii], sr)->Err_0),
{
    let e = spec_step(st_before, items[ii], sr)->Err_0;
    lemma_items_err_from(items, ii, st_m, st_before, evs_m, evs_before, sr);
    lemma_measures_err_from(measures, mi, init, st_m, evs_m, sr, e);
}

/// A failing step inside an item run fails the whole run.
#[verifier::spinoff_prover]
proof fn lemma_items_err_from(
    items: Seq<MeasureItem>,
    ii: int,
    st_m: SpecState,
    st_before: SpecState,
    evs_m: Seq<NoteEvent>,
    evs_before: Seq<NoteEvent>,
    sr: int,
)
    requires
        0 <= ii < items.len(),
        spec_extract_items(items.subrange(0, ii), st_m, sr) == Ok::<
            (SpecState, Seq<NoteEvent>),
            RenderError,
        >((st_before, evs_before.subrange(evs_m.len() as int, evs_before.len() as int))),
        spec_step(st_before, items[ii], sr) is Err,
    ensures
        spec_extract_items(items, st_m, sr) == Err::<(SpecState, Seq<NoteEvent>), RenderError>(
            spec_step(st_before, items[ii], sr)->Err_0,
        ),
{
    let pre = items.subrange(0, ii);
    let cur = items.subrange(0, ii + 1);
    assert(cur =~= pre.push(items[ii]));
    lemma_extract_items_snoc(pre, items[ii], st_m, sr);
    lemma_items_err_extend(items, ii + 1, st_m, sr);
}

/// An item run that fails on a prefix fails in full, with the same error.
#[verifier::spinoff_prover]
proof fn lemma_items_err_extend(items: Seq<MeasureItem>, n: int, st: SpecState, sr: int)
    requires
        0 <= n <= items.len(),
        spec_extract_items(items.subrange(0, n), st, sr) is Err,
    ensures
        spec_extract_items(items, st, sr) == spec_extract_items(items.subrange(0, n), st, sr),
    decreases items.len() - n,
{
    if n == items.len() {
        assert(items.subrange(0, n) =~= items);
    } else {
        let pre = items.subrange(0, n);
        let cur = items.subrange(0, n + 1);
        assert(cur =~= pre.push(items[n]));
        lemma_extract_items_snoc(pre, items[n], st, sr);
        lemma_items_err_extend(items, n + 1, st, sr);
    }
}

/// A measure run that fails on one measure's items fails in full.
#[verifier::spinoff_prover]
proof fn lemma_measures_err_from(
    measures: Seq<Measure>,
    mi: int,
    init: SpecState,
    st_m: SpecState,
    evs_m: Seq<NoteEvent>,
    sr: int,
    e: RenderError,
)
    requires
        0 <= mi < measures.len(),
        spec_extract_measures(measures.subrange(0, mi), init, sr) == Ok::<
            (SpecState, Seq<NoteEvent>),
            RenderError,
        >((st_m, evs_m)),
        spec_extract_items(measures[mi].items@, st_m, sr) == Err::<
            (SpecState, Seq<NoteEvent>),
            RenderError,
        >(e),
    ensures
        spec_extract_measures(measures, init, sr) == Err::<
            (SpecState, Seq<NoteEvent>),
            RenderError,
        >(e),
{
    let pre = measures.subrange(0, mi);
    let cur = measures.subrange(0, mi + 1);
    assert(cur =~= pre.push(measures[mi]));
    lemma_extract_measures_snoc(pre, measures[mi], init, sr);
    lemma_measures_err_extend(measures, mi + 1, init, sr);
}

/// A measure run that fails on a prefix fails in full, with the same error.
#[verifier::spinoff_prover]
proof fn lemma_measures_err_extend(measures: Seq<Measure>, n: int, st: SpecState, sr: int)
    requires
        0 <= n <= measures.len(),
        spec_extract_measures(measures.subrange(0, n), st, sr) is Err,
    ensures
        spec_extract_measures(measures, st, sr) == spec_extract_measures(
            measures.subrange(0, n),
            st,
            sr,
        ),
    decreases measures.len() - n,
{
    if n == measures.len() {
        assert(measures.subrange(0, n) =~= measures);
    } else {
        let pre = measures.subrange(0, n);
        let cur = measures.subrange(0, n + 1);
        assert(cur =~= pre.push(measures[n]));
        lemma_extract_measures_snoc(pre, measures[n], st, sr);
        lemma_measures_err_extend(measures, n + 1, st, sr);
    }
}

} // verus!

verus! {

/// The traversal state after a prefix of the item run, when every step of
/// the prefix succeeds.
pub open spec fn spec_state_after(items: Seq<MeasureItem>, st: SpecState, sr: int, k: int) -> SpecState {
    spec_extract_items(items.subrange(0, k), st, sr).unwrap().0
}

/// The events collected over a prefix of the item run.
pub open spec fn spec_events_after(items: Seq<MeasureItem>, st: SpecState, sr: int, k: int) -> Seq<
    NoteEvent,
> {
    spec_extract_items(items.subrange(0, k), st, sr).unwrap().1
}

proof fn lemma_prefix_ok(items: Seq<MeasureItem>, st: SpecState, sr: int, m: int, n: int)
    requires
        0 <= m <= n <= items.len(),
        spec_extract_items(items.subrange(0, n), st, sr) is Ok,
    ensures
        spec_extract_items(items.subrange(0, m), st, sr) is Ok,
{
    if spec_extract_items(items.subrange(0, m), st, sr) is Err {
        let sub = items.subrange(0, n);
        assert(sub.subrange(0, m) =~= items.subrange(0, m));
        lemma_items_err_extend(sub, m, st, sr);
    }
}

proof fn lemma_step_after(items: Seq<MeasureItem>, st: SpecState, sr: int, m: int)
    requires
        0 <= m < items.len(),
        spec_extract_items(items.subrange(0, m + 1), st, sr) is Ok,
    ensures
        spec_extract_items(items.subrange(0, m), st, sr) is Ok,
        spec_step(spec_state_after(items, st, sr, m), items[m], sr) is Ok,
        spec_state_after(items, st, sr, m + 1) == spec_step(
            spec_state_after(items, st, sr, m),
            items[m],
            sr,
        ).unwrap().0,
        spec_events_after(items, st, sr, m + 1) == spec_events_after(items, st, sr, m) + spec_step(
            spec_state_after(items, st, sr, m),
            items[m],
            sr,
        ).unwrap().1,
{
    lemma_prefix_ok(items, st, sr, m, m + 1);
    let pre = items.subrange(0, m);
    let cur = items.subrange(0, m + 1);
    assert(cur =~= pre.push(items[m]));
    lemma_extract_items_snoc(pre, items[m], st, sr);
}

/// Between two positions with no non-chord note, the chord anchor stands
/// still.
proof fn lemma_anchor_stable(items: Seq<MeasureItem>, st: SpecState, sr: int, a: int, b: int)
    requires
        0 <= a <= b <= items.len(),
        spec_extract_items(items.subrange(0, b), st, sr) is Ok,
        forall|k: int|
            a <= k < b ==> !((#[trigger] items[k]) matches MeasureItem::Note(n) && !n.is_chord),
    ensures
        spec_state_after(items, st, sr, b).anchor == spec_state_after(items, st, sr, a).anchor,
    decreases b - a,
{
    if a < b {
        lemma_prefix_ok(items, st, sr, b - 1, b);
        lemma_anchor_stable(items, st, sr, a, b - 1);
        lemma_step_after(items, st, sr, b - 1);
    }
}

/// For all notes marked as chord members, the emitted start time equals
/// the start time of the nearest preceding non-chord note: the chord
/// member emitted at `k1` starts exactly where the cursor stood before the
/// non-chord note at `k0`, and the note at `k0` itself (when it sounds on
/// its own, untied) starts there too.
pub proof fn lemma_chord_start_is_anchor(
    items: Seq<MeasureItem>,
    st: SpecState,
    sr: int,
    k0: int,
    k1: int,
)
    requires
        0 <= k0 < k1 < items.len(),
        items[k0] matches MeasureItem::Note(n0) && !n0.is_chord,
        items[k1] matches MeasureItem::Note(n1) && n1.is_chord && n1.tie is None && (
        n1.pitch is Some || n1.unpitched is Some),
        forall|k: int|
            k0 < k < k1 ==> !((#[trigger] items[k]) matches MeasureItem::Note(n) && !n.is_chord),
        spec_extract_items(items.subrange(0, k1 + 1), st, sr) is Ok,
    ensures
        spec_events_after(items, st, sr, k1 + 1).len() == spec_events_after(
            items,
            st,
            sr,
            k1,
        ).len() + 1,
        spec_events_after(items, st, sr, k1 + 1).last().start == spec_state_after(
            items,
            st,
            sr,
            k0,
        ).cursor,
{
    lemma_prefix_ok(items, st, sr, k0 + 1, k1 + 1);
    lemma_prefix_ok(items, st, sr, k1, k1 + 1);
    lemma_step_after(items, st, sr, k0);
    lemma_anchor_stable(items, st, sr, k0 + 1, k1);
    lemma_step_after(items, st, sr, k1);
}

/// Between two positions where no pitched note starts or stops a tie on
/// the given semitone, that semitone's open-tie entry stands still.
proof fn lemma_tie_entry_stable(
    items: Seq<MeasureItem>,
    st: SpecState,
    sr: int,
    a: int,
    b: int,
    semi: u8,
)
    requires
        0 <= a <= b <= items.len(),
        spec_extract_items(items.subrange(0, b), st, sr) is Ok,
        forall|k: int|
            a <= k < b ==> !((#[trigger] items[k]) matches MeasureItem::Note(n) && n.pitch matches
                Some(p) && pitch_in_range(p) && spec_semitone(p) == semi && n.tie is Some),
    ensures
        spec_state_after(items, st, sr, b).ties.contains_key(semi) == spec_state_after(
            items,
            st,
            sr,
            a,
        ).ties.contains_key(semi),
        spec_state_after(items, st, sr, a).ties.contains_key(semi) ==> spec_state_after(
            items,
            st,
            sr,
            b,
        ).ties[semi] == spec_state_after(items, st, sr, a).ties[semi],
    decreases b - a,
{
    if a < b {
        lemma_prefix_ok(items, st, sr, b - 1, b);
        lemma_tie_entry_stable(items, st, sr, a, b - 1, semi);
        lemma_step_after(items, st, sr, b - 1);
    }
}

/// Positive tempo and resolution survive every successful step, so the
/// tick-to-sample conversion stays well defined along a traversal.
proof fn lemma_rates_preserved(items: Seq<MeasureItem>, st: SpecState, sr: int, k: int)
    requires
        0 <= k <= items.len(),
        st.tempo_bpm >= 1,
        st.divisions >= 1,
        spec_extract_items(items.subrange(0, k), st, sr) is Ok,
    ensures
        spec_state_after(items, st, sr, k).tempo_bpm >= 1,
        spec_state_after(items, st, sr, k).divisions >= 1,
    decreases k,
{
    if k == 0 {
        assert(items.subrange(0, 0) =~= Seq::<MeasureItem>::empty());
    } else {
        lemma_prefix_ok(items, st, sr, k - 1, k);
        lemma_rates_preserved(items, st, sr, k - 1);
        lemma_step_after(items, st, sr, k - 1);
    }
}

/// For a tie pair on one pitch, exactly one event is emitted: nothing at
/// the tie start, and at the tie stop one event that starts where the tied
/// note began and spans both durations.
pub proof fn lemma_tie_pair_single_event(
    items: Seq<MeasureItem>,
    st: SpecState,
    sr: int,
    k0: int,
    k1: int,
    semi: u8,
)
    requires
        0 <= k0 < k1 < items.len(),
        items[k0] matches MeasureItem::Note(n0) && (n0.pitch matches Some(p0) && (pitch_in_range(
            p0,
        ) && spec_semitone(p0) == semi && (n0.tie matches Some(t0) && t0 is Start))),
        items[k1] matches MeasureItem::Note(n1) && (n1.pitch matches Some(p1) && (pitch_in_range(
            p1,
        ) && spec_semitone(p1) == semi && (n1.tie matches Some(t1) && t1 is Stop))),
        forall|k: int|
            k0 < k < k1 ==> !((#[trigger] items[k]) matches MeasureItem::Note(n) && n.pitch matches
                Some(p) && pitch_in_range(p) && spec_semitone(p) == semi && n.tie is Some),
        spec_extract_items(items.subrange(0, k1 + 1), st, sr) is Ok,
        sr >= 1,
        st.tempo_bpm >= 1,
        st.divisions >= 1,
    ensures
        // the tie start emits nothing
        spec_events_after(items, st, sr, k0 + 1) == spec_events_after(items, st, sr, k0),
        // the tie stop emits exactly one event, joining both notes
        spec_events_after(items, st, sr, k1 + 1).len() == spec_events_after(
            items,
            st,
            sr,
            k1,
        ).len() + 1,
        ({
            let held = spec_state_after(items, st, sr, k0 + 1).ties[semi];
            let ev = spec_events_after(items, st, sr, k1 + 1).last();
            &&& ev.pitch == Some(semi)
            &&& ev.start == held.start
            &&& ev.end == held.start + held.duration + spec_ticks_to_samples(
                (items[k1]->Note_0).duration as int,
                spec_state_after(items, st, sr, k1).divisions as int,
                spec_state_after(items, st, sr, k1).tempo_bpm as int,
                sr,
            )
        }),
{
    lemma_prefix_ok(items, st, sr, k0 + 1, k1 + 1);
    lemma_prefix_ok(items, st, sr, k1, k1 + 1);
    lemma_step_after(items, st, sr, k0);
    lemma_tie_entry_stable(items, st, sr, k0 + 1, k1, semi);
    lemma_step_after(items, st, sr, k1);
    let s0 = spec_state_after(items, st, sr, k0);
    let s01 = spec_state_after(items, st, sr, k0 + 1);
    let sk = spec_state_after(items, st, sr, k1);
    assert(s01.ties.contains_key(semi));
    assert(sk.ties.contains_key(semi) && sk.ties[semi] == s01.ties[semi]);
    let n1v = items[k1]->Note_0;
    let stepres = spec_step(sk, items[k1], sr);
    assert(stepres is Ok);
    assert((spec_semitone(n1v.pitch.unwrap()) as u8) == semi);
    let held = s01.ties[semi];
    let emitted = stepres.unwrap().1;
    assert(emitted.len() == 1);
    let evs_pre = spec_events_after(items, st, sr, k1);
    assert(spec_events_after(items, st, sr, k1 + 1) == evs_pre + emitted);
    assert(spec_events_after(items, st, sr, k1 + 1).last() == emitted[0]);
    assert(emitted[0].pitch == Some(semi));
    assert(emitted[0].start == held.start);
    let dur = spec_ticks_to_samples(
        n1v.duration as int,
        sk.divisions as int,
        sk.tempo_bpm as int,
        sr,
    );
    lemma_rates_preserved(items, st, sr, k1);
    assert(dur >= 0) by {
        let den = 2 * (sk.divisions as int * sk.tempo_bpm as int);
        assert(sk.divisions as int * sk.tempo_bpm as int >= 1) by (nonlinear_arith)
            requires
                sk.divisions >= 1,
                sk.tempo_bpm >= 1,
        ;
        assert(n1v.duration as int * 60 * sr >= 0) by (nonlinear_arith)
            requires
                n1v.duration >= 0,
                sr >= 1,
        ;
        vstd::arithmetic::div_mod::lemma_div_pos_is_pos(
            2 * (n1v.duration as int * 60 * sr) + sk.divisions as int * sk.tempo_bpm as int,
            den,
        );
    }
    assert(emitted[0].end == held.start + held.duration + dur);
}

/// Rendering is deterministic: the events a timeline resolves to are a
/// function of the timeline and the sample rate alone, so two successful
/// extractions of the same part always agree.
pub proof fn lemma_extraction_deterministic(
    p: Part,
    sr: int,
    a: Seq<NoteEvent>,
    b: Seq<NoteEvent>,
)
    requires
        spec_part_events(p, sr) matches Ok(ra) && ra.1 == a,
        spec_part_events(p, sr) matches Ok(rb) && rb.1 == b,
    ensures
        a == b,
{
}

} // verus!
