use lyra::events::{extract_note_events, NoteEvent, RenderError, RenderState};
use lyra::graph::{Graph, GraphError, NodeKind};
use lyra::musescore::MusescoreInstrumentSound;
use lyra::music::{
    Attributes, AttributesCreateInfo, Clef, Dynamics, Measure, MeasureCreateInfo, MeasureItem,
    Mode, NoteCreateInfo, NoteType, Part, Pitch, StartStop,
};
use lyra::xml::Writer;
use lyra::RenderContext;

fn four_four_measure(number: usize) -> Measure {
    let mut m = Measure::new(MeasureCreateInfo {
        measure_number: number,
        attributes: None,
        effective_attributes: None,
    });
    m.attributes(&AttributesCreateInfo::default());
    m
}

#[test]
fn pitch_parsing_and_semitones() {
    let p = Pitch::from_str("C4").unwrap();
    assert_eq!(p.to_semitone(), 60);
    let p = Pitch::from_str("A4").unwrap();
    assert_eq!(p.to_semitone(), 69);
    let p = Pitch::from_str("C#4").unwrap();
    assert_eq!(p.to_semitone(), 61);
    let p = Pitch::from_str("Eb2").unwrap();
    assert_eq!(p.to_semitone(), 39);
    assert!(Pitch::from_str("H4").is_err());
    assert!(Pitch::from_str("C").is_err());
    let back = Pitch::from_semitone(69, false);
    assert_eq!(back.to_semitone(), 69);
    let flat = Pitch::from_semitone(61, true);
    assert_eq!(flat.to_semitone(), 61);
}

#[test]
fn note_literal_durations() {
    let ci = NoteCreateInfo::from_str("C4:q").unwrap();
    assert_eq!(ci.divisions, 480);
    let n = lyra::music::Note::new(ci);
    assert_eq!(n.duration, 480);
    let n = lyra::music::Note::new(NoteCreateInfo::from_str("C4:h.").unwrap());
    assert_eq!(n.duration, 480 * 2 + 480);
    let n = lyra::music::Note::new(NoteCreateInfo::from_str("w").unwrap());
    assert_eq!(n.duration, 1920);
    assert!(n.pitch.is_none());
    let ci = NoteCreateInfo::from_str("C4:h~").unwrap();
    assert!(matches!(ci.tie, Some(StartStop::Start)));
}

#[test]
fn dynamics_and_keys() {
    assert_eq!(Dynamics::from_str("mf").velocity(), 80);
    assert_eq!(Dynamics::from_str("fff").velocity(), 127);
    assert_eq!(lyra::music::key_fifths_from_name("C"), 0);
    assert_eq!(lyra::music::key_fifths_from_name("F#"), 6);
    assert_eq!(lyra::music::key_fifths_from_name("Cb"), -7);
    assert!(matches!(Mode::from_str("MAJOR"), Ok(Mode::Major)));
    assert!(matches!(Clef::from_str("bass"), Ok(Clef::Bass)));
    assert!(Mode::from_str("nope").is_err());
}

#[test]
fn whole_note_at_120_bpm_spans_two_seconds_of_samples() {
    // A whole note is 4 beats; at 120 beats per minute that is two seconds,
    // so the event must span 2 * sample_rate samples.
    let mut part = Part::new("P1", "Lead");
    let mut m = four_four_measure(1);
    m.metronome("quarter", 120);
    m.note("C4:w");
    part.push_measure(m);
    let ctx = RenderContext { sample_rate: 44100 };
    let events = extract_note_events(&part, &ctx).unwrap();
    assert_eq!(events.len(), 1);
    assert_eq!(events[0].start, 0);
    assert_eq!(events[0].end, 2 * 44100);
    assert_eq!(events[0].pitch, Some(60));
}

#[test]
fn chord_members_share_the_anchor_start() {
    let mut part = Part::new("P1", "Keys");
    let mut m = four_four_measure(1);
    m.note("C4:q");
    m.chord("maj:E4:q");
    part.push_measure(m);
    let ctx = RenderContext { sample_rate: 1000 };
    let events = extract_note_events(&part, &ctx).unwrap();
    // one plain note, then a triad: root advances the cursor, the two
    // chord members reuse its start.
    assert_eq!(events.len(), 4);
    let anchor = events[1].start;
    assert_eq!(events[2].start, anchor);
    assert_eq!(events[3].start, anchor);
    assert_eq!(events[0].end, anchor);
}

#[test]
fn tie_pair_merges_into_one_event() {
    let mut part = Part::new("P1", "Lead");
    let mut m = four_four_measure(1);
    m.metronome("quarter", 120);
    m.note("C4:h~");
    part.push_measure(m);
    let mut m2 = Measure::new(MeasureCreateInfo {
        measure_number: 2,
        attributes: None,
        effective_attributes: None,
    });
    m2.item(MeasureItem::Note(lyra::music::Note::new(
        NoteCreateInfo {
            tie: Some(StartStop::Stop),
            ..NoteCreateInfo::from_str("C4:h").unwrap()
        },
    )));
    part.push_measure(m2);
    let ctx = RenderContext { sample_rate: 1000 };
    let events = extract_note_events(&part, &ctx).unwrap();
    assert_eq!(events.len(), 1);
    assert_eq!(events[0].start, 0);
    // half note at 120 bpm = 1 second = 1000 samples; tied pair spans both
    assert_eq!(events[0].end, 2000);
}

#[test]
fn unmatched_tie_stop_sounds_alone() {
    let mut part = Part::new("P1", "Lead");
    let mut m = four_four_measure(1);
    m.item(MeasureItem::Note(lyra::music::Note::new(
        NoteCreateInfo {
            tie: Some(StartStop::Stop),
            ..NoteCreateInfo::from_str("C4:q").unwrap()
        },
    )));
    part.push_measure(m);
    let ctx = RenderContext { sample_rate: 1000 };
    let events = extract_note_events(&part, &ctx).unwrap();
    assert_eq!(events.len(), 1);
    assert_eq!(events[0].start, 0);
    assert_eq!(events[0].end, 500);
}

#[test]
fn zero_tempo_is_rejected() {
    let mut part = Part::new("P1", "Lead");
    let mut m = four_four_measure(1);
    m.metronome("quarter", 0);
    m.note("C4:q");
    part.push_measure(m);
    let ctx = RenderContext { sample_rate: 1000 };
    assert_eq!(
        extract_note_events(&part, &ctx),
        Err(RenderError::NonPositiveTempo)
    );
    assert_eq!(
        extract_note_events(&part, &RenderContext { sample_rate: 0 }),
        Err(RenderError::NonPositiveSampleRate)
    );
}

#[test]
fn extraction_is_deterministic() {
    let mut part = Part::new("P1", "Lead");
    let mut m = four_four_measure(1);
    m.dynamics("ff");
    m.note("C4:q");
    m.note("E4:e");
    m.rest("q");
    part.push_measure(m);
    let ctx = RenderContext { sample_rate: 48000 };
    let a = extract_note_events(&part, &ctx).unwrap();
    let b = extract_note_events(&part, &ctx).unwrap();
    assert_eq!(a.len(), b.len());
    for (x, y) in a.iter().zip(b.iter()) {
        assert_eq!(x.pitch, y.pitch);
        assert_eq!(x.velocity, y.velocity);
        assert_eq!(x.start, y.start);
        assert_eq!(x.end, y.end);
    }
    assert_eq!(a[0].velocity, 112);
}

#[test]
fn ticks_to_samples_rounds_half_up() {
    let state = RenderState::new();
    // 480 ticks at 120 bpm and 44100 Hz: exactly half a second.
    assert_eq!(state.ticks_to_samples(480, 44100).unwrap(), 22050);
    // one tick at 44100 Hz: 44100 * 60 / (480 * 120) = 45.9375 -> 46
    assert_eq!(state.ticks_to_samples(1, 44100).unwrap(), 46);
    assert_eq!(state.ticks_to_samples(0, 44100).unwrap(), 0);
}

#[test]
fn cyclic_graph_is_rejected_before_any_output() {
    let mut g = Graph::new();
    let a = g.add_node(NodeKind::Track);
    let b = g.add_node(NodeKind::Effect);
    let c = g.add_node(NodeKind::Output {
        target: String::from("out.wav"),
    });
    g.connect(a, b);
    g.connect(b, a);
    g.connect(b, c);
    assert_eq!(g.topological_sort(), Err(GraphError::Cycle));
}

#[test]
fn diamond_graph_schedules_inputs_first() {
    let mut g = Graph::new();
    let track = g.add_node(NodeKind::Track);
    let fx_a = g.add_node(NodeKind::Effect);
    let fx_b = g.add_node(NodeKind::Effect);
    let bus = g.add_node(NodeKind::Bus);
    let out = g.add_node(NodeKind::Output {
        target: String::from("mix.wav"),
    });
    g.connect(track, fx_a);
    g.connect(track, fx_b);
    g.connect(fx_a, bus);
    g.connect(fx_b, bus);
    g.connect(bus, out);
    let order = g.topological_sort().unwrap();
    assert_eq!(order.len(), 5);
    let pos = |v: u32| order.iter().position(|&x| x == v).unwrap();
    assert!(pos(track) < pos(fx_a));
    assert!(pos(track) < pos(fx_b));
    assert!(pos(fx_a) < pos(bus));
    assert!(pos(fx_b) < pos(bus));
    assert!(pos(bus) < pos(out));
    // the bus hears both effect paths
    let ins = g.inputs(bus);
    assert_eq!(ins, vec![fx_a, fx_b]);
    assert_eq!(g.input_count(bus), 2);
    assert_eq!(g.output_count(track), 2);
}

#[test]
fn disconnect_removes_the_edge() {
    let mut g = Graph::new();
    let a = g.add_node(NodeKind::Track);
    let b = g.add_node(NodeKind::Bus);
    g.connect(a, b);
    g.connect(a, b);
    g.disconnect(a, b);
    assert_eq!(g.input_count(b), 0);
    assert!(g.get_node(a).is_some());
    assert!(g.get_node(7).is_none());
}

#[test]
fn xml_writer_shapes_lines() {
    let mut w = Writer::new();
    w.open_tag("score", None);
    w.text_element("name", "test");
    w.close_tag("score");
    assert_eq!(w.into_string(), "<score>\n  <name>test</name>\n</score>\n");
}

#[test]
fn measure_attributes_render_exactly() {
    let mut m = four_four_measure(1);
    m.note("C4:q");
    let mut w = Writer::new();
    m.write_to(&mut w);
    let text = w.into_string();
    assert!(text.starts_with("<measure number=\"1\">\n"));
    assert!(text.contains("<divisions>480</divisions>"));
    assert!(text.contains("<fifths>0</fifths>"));
    assert!(text.contains("<mode>major</mode>"));
    assert!(text.contains("<beats>4</beats>"));
    assert!(text.contains("<beat-type>4</beat-type>"));
    assert!(text.contains("<sign>G</sign>"));
    assert!(text.contains("<pitch>\n"));
    assert!(text.contains("<step>C</step>"));
    assert!(text.contains("<octave>4</octave>"));
    assert!(text.contains("<duration>480</duration>"));
    assert!(text.contains("<type>quarter</type>"));
    assert!(text.ends_with("</measure>\n"));
}

#[test]
fn percussion_clef_turns_pitches_unpitched() {
    let mut m = Measure::new(MeasureCreateInfo {
        measure_number: 1,
        attributes: None,
        effective_attributes: None,
    });
    m.attributes(&AttributesCreateInfo {
        key_name: "C",
        key_mode: "major",
        time_sig: "4/4",
        clefs: vec!["percussion"],
    });
    m.note("C4:q");
    match &m.items[0] {
        MeasureItem::Note(n) => {
            assert!(n.pitch.is_none());
            assert!(n.unpitched.is_some());
        }
        _ => panic!("expected a note"),
    }
}

#[test]
fn two_staves_assign_by_register() {
    let mut m = Measure::new(MeasureCreateInfo {
        measure_number: 1,
        attributes: None,
        effective_attributes: None,
    });
    m.attributes(&AttributesCreateInfo {
        key_name: "C",
        key_mode: "major",
        time_sig: "4/4",
        clefs: vec!["treble", "bass"],
    });
    m.note("C4:q");
    m.note("C3:q");
    match (&m.items[0], &m.items[1]) {
        (MeasureItem::Note(hi), MeasureItem::Note(lo)) => {
            assert_eq!(hi.staff, Some(1));
            assert_eq!(lo.staff, Some(2));
        }
        _ => panic!("expected notes"),
    }
}

#[test]
fn note_type_durations_follow_the_table() {
    let q = NoteType::Quarter;
    assert_eq!(q.to_duration(480, None, None), 480);
    assert_eq!(NoteType::Whole.to_duration(480, None, None), 1920);
    assert_eq!(NoteType::Eighth.to_duration(480, Some(1), None), 240 + 120);
    assert_eq!(NoteType::Maxima.to_duration(480, None, None), 480 * 32);
    assert_eq!(NoteType::Sixteenth.to_duration(480, None, None), 120);
}

#[test]
fn forward_and_backup_move_the_cursor() {
    let mut part = Part::new("P1", "Lead");
    let mut m = four_four_measure(1);
    m.note("C4:q");
    m.item(MeasureItem::Backup(lyra::music::Backup {
        duration: 480,
        footnote: None,
        level: None,
    }));
    m.note("E4:q");
    part.push_measure(m);
    let ctx = RenderContext { sample_rate: 1000 };
    let events = extract_note_events(&part, &ctx).unwrap();
    assert_eq!(events.len(), 2);
    // the backup rewinds a quarter note, so both notes start together
    assert_eq!(events[0].start, events[1].start);
}

#[test]
fn finalize_closes_cross_measure_ties() {
    let mut part = Part::new("P1", "Lead");
    let mut m = four_four_measure(1);
    m.metronome("quarter", 120);
    m.note("C4:h~");
    part.push_measure(m);
    let mut m2 = part.new_measure();
    m2.note_repeat("C4:h", 1);
    part.push_measure(m2);
    part.finalize();
    match &part.measures[1].items[0] {
        MeasureItem::Note(n) => assert!(matches!(n.tie, Some(StartStop::Stop))),
        _ => panic!("expected a note"),
    }
    // the finalized part now renders the tie as one long event
    let events = extract_note_events(&part, &RenderContext { sample_rate: 1000 }).unwrap();
    assert_eq!(events.len(), 1);
    assert_eq!(events[0].start, 0);
    assert_eq!(events[0].end, 2000);
}

#[test]
fn finalize_leaves_distinct_pitches_alone() {
    let mut part = Part::new("P1", "Lead");
    let mut m = four_four_measure(1);
    m.note("C4:q~");
    m.note("D4:q");
    m.note("C4:q");
    part.push_measure(m);
    part.finalize();
    // the D does not close the C tie, and the later C does
    match (&part.measures[0].items[1], &part.measures[0].items[2]) {
        (MeasureItem::Note(d), MeasureItem::Note(c)) => {
            assert!(d.tie.is_none());
            assert!(matches!(c.tie, Some(StartStop::Stop)));
        }
        _ => panic!("expected notes"),
    }
}

#[test]
fn musescore_sound_ids() {
    assert_eq!(MusescoreInstrumentSound::KeyboardPiano.to_id(), "keyboard.piano");
    assert_eq!(MusescoreInstrumentSound::DrumSnaredrum.to_id(), "drum.snare-drum");
    assert_eq!(MusescoreInstrumentSound::PluckBass.to_id(), "pluck.bass");
}
