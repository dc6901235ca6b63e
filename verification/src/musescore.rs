//! MuseScore instrument-sound identifiers for `<instrument-sound>`.

use vstd::prelude::*;
use vstd::string::StringExecFns;

verus! {

/// The MuseScore sound ids the notation layer can suggest.
#[derive(Clone, Copy, Debug)]
pub enum MusescoreInstrumentSound {
    BrassAlphorn,
    BrassAltohorn,
    BrassBaritonehorn,
    BrassBugle,
    BrassBugleAlto,
    BrassBugleBaritone,
    BrassBugleContrabass,
    BrassBugleEuphoniumbugle,
    BrassBugleMellophonebugle,
    BrassBugleSoprano,
    BrassCimbasso,
    BrassConchshell,
    BrassCornet,
    BrassCornetSoprano,
    BrassCornett,
    BrassCornettino,
    BrassCornettTenor,
    BrassDidgeridoo,
    BrassEuphonium,
    BrassFiscorn,
    BrassFlugelhorn,
    BrassFrenchhorn,
    BrassGroup,
    BrassGroupSynth,
    BrassHelicon,
    BrassHoragai,
    BrassKuhlohorn,
    BrassMellophone,
    BrassNaturalhorn,
    BrassOphicleide,
    BrassPosthorn,
    BrassRagdung,
    BrassSackbuttAlto,
    BrassSackbuttBass,
    BrassSackbuttTenor,
    BrassSaxhorn,
    BrassSerpent,
    BrassShofar,
    BrassSousaphone,
    BrassTrombone,
    BrassTromboneAlto,
    BrassTromboneBass,
    BrassTromboneContrabass,
    BrassTromboneTenor,
    BrassTrumpet,
    BrassTrumpetBaroque,
    BrassTrumpetBass,
    BrassTrumpetBflat,
    BrassTrumpetC,
    BrassTrumpetD,
    BrassTrumpetPiccolo,
    BrassTrumpetPocket,
    BrassTrumpetSlide,
    BrassTrumpetTenor,
    BrassTuba,
    BrassTubaBass,
    BrassTubaSubcontrabass,
    BrassViennahorn,
    BrassVuvuzela,
    BrassWagnertuba,
    DrumBassdrum,
    DrumBongo,
    DrumConga,
    DrumCuica,
    DrumFramedrum,
    DrumGroupChinese,
    DrumGroupSet,
    DrumRototom,
    DrumSlitdrum,
    DrumSnaredrum,
    DrumSnaredrumElectric,
    DrumTabla,
    DrumTambourine,
    DrumTenordrum,
    DrumTimbale,
    DrumTimpani,
    DrumTomtom,
    EffectHandclap,
    EffectSlap,
    EffectSnap,
    EffectStamp,
    EffectWhip,
    KeyboardAccordion,
    KeyboardBandoneon,
    KeyboardCelesta,
    KeyboardClavichord,
    KeyboardClavichordSynth,
    KeyboardConcertina,
    KeyboardHarmonium,
    KeyboardHarpsichord,
    KeyboardOndesmartenot,
    KeyboardOrgan,
    KeyboardOrganDrawbar,
    KeyboardOrganPercussive,
    KeyboardOrganPipe,
    KeyboardOrganReed,
    KeyboardOrganRotary,
    KeyboardPiano,
    KeyboardPianoElectric,
    KeyboardPianoGrand,
    KeyboardPianoHonkytonk,
    KeyboardPianoToy,
    KeyboardPianoUpright,
    KeyboardVirginal,
    MetalAnvil,
    MetalBellsAlmglocken,
    MetalBellsBellplate,
    MetalBellsBelltree,
    MetalBellsCarillon,
    MetalBellsCowbell,
    MetalBellsMarktree,
    MetalBellsSleighbells,
    MetalBellsWindchimes,
    MetalBrakedrums,
    MetalCrotales,
    MetalCymbalChinese,
    MetalCymbalCrash,
    MetalCymbalFinger,
    MetalCymbalRide,
    MetalCymbalSplash,
    MetalFlexatone,
    MetalGong,
    MetalHihat,
    MetalMusicalsaw,
    MetalSteeldrums,
    MetalTamtam,
    MetalThundersheet,
    MetalTriangle,
    PitchedpercussionCimbalom,
    PitchedpercussionCrystalglasses,
    PitchedpercussionGlassharmonica,
    PitchedpercussionGlockenspiel,
    PitchedpercussionGlockenspielAlto,
    PitchedpercussionGlockenspielSoprano,
    PitchedpercussionHammerdulcimer,
    PitchedpercussionHandbells,
    PitchedpercussionKalimba,
    PitchedpercussionMarimba,
    PitchedpercussionMarimbaBass,
    PitchedpercussionMetallophone,
    PitchedpercussionMetallophoneAlto,
    PitchedpercussionMetallophoneBass,
    PitchedpercussionMetallophoneSoprano,
    PitchedpercussionTubularbells,
    PitchedpercussionVibraphone,
    PitchedpercussionXylomarimba,
    PitchedpercussionXylophone,
    PitchedpercussionXylophoneAlto,
    PitchedpercussionXylophoneSoprano,
    PluckArchlute,
    PluckBalalaika,
    PluckBalalaikaAlto,
    PluckBalalaikaBass,
    PluckBalalaikaContrabass,
    PluckBalalaikaPiccolo,
    PluckBalalaikaPrima,
    PluckBalalaikaSecunda,
    PluckBandurria,
    PluckBanjo,
    PluckBanjoTenor,
    PluckBass,
    PluckBassAcoustic,
    PluckBassElectric,
    PluckBassFretless,
    PluckBassSynth,
    PluckBouzouki,
    PluckDulcimer,
    PluckGuitar,
    PluckGuitarAcoustic,
    PluckGuitarElectric,
    PluckGuitarNylonstring,
    PluckGuitarPedalsteel,
    PluckHarp,
    PluckKoto,
    PluckLaud,
    PluckLute,
    PluckMandocello,
    PluckMandola,
    PluckMandolin,
    PluckMandolinOctave,
    PluckOud,
    PluckShamisen,
    PluckSitar,
    PluckTambura,
    PluckTheorbo,
    PluckUkulele,
    PluckUkuleleTenor,
    RattleCabasa,
    RattleJawbone,
    RattleLavastones,
    RattleMaraca,
    RattleRatchet,
    RattleVibraslap,
    StringsBaryton,
    StringsCello,
    StringsContrabass,
    StringsErhu,
    StringsGroup,
    StringsGroupSynth,
    StringsNyckelharpa,
    StringsOctobass,
    StringsViol,
    StringsViola,
    StringsViolAlto,
    StringsViolin,
    StringsViolTenor,
    StringsViolTreble,
    StringsViolViolone,
    SynthEffects,
    SynthEffectsAtmosphere,
    SynthEffectsBrightness,
    SynthEffectsCrystal,
    SynthEffectsEchoes,
    SynthEffectsGoblins,
    SynthEffectsRain,
    SynthEffectsScifi,
    SynthEffectsSoundtrack,
    SynthGroup,
    SynthPad,
    SynthPadBowed,
    SynthPadChoir,
    SynthPadHalo,
    SynthPadMetallic,
    SynthPadPolysynth,
    SynthPadWarm,
    SynthTheremin,
    SynthToneSawtooth,
    SynthToneSine,
    VoiceAlto,
    VoiceBaritone,
    VoiceBass,
    VoiceChild,
    VoiceCountertenor,
    VoiceFemale,
    VoiceKazoo,
    VoiceMale,
    VoiceMezzosoprano,
    VoiceSoprano,
    VoiceTenor,
    VoiceVocals,
    WindFlutesDanso,
    WindFlutesDizi,
    WindFlutesFife,
    WindFlutesFlageolet,
    WindFlutesFlute,
    WindFlutesFluteAlto,
    WindFlutesFluteBass,
    WindFlutesFluteContraalto,
    WindFlutesFluteContrabass,
    WindFlutesFluteDoublecontrabass,
    WindFlutesFluteIrish,
    WindFlutesFlutePiccolo,
    WindFlutesFluteSubcontrabass,
    WindFlutesGemshorn,
    WindFlutesOcarina,
    WindFlutesPanpipes,
    WindFlutesQuena,
    WindFlutesRecorder,
    WindFlutesRecorderAlto,
    WindFlutesRecorderBass,
    WindFlutesRecorderContrabass,
    WindFlutesRecorderGarklein,
    WindFlutesRecorderGreatbass,
    WindFlutesRecorderSopranino,
    WindFlutesRecorderSoprano,
    WindFlutesRecorderTenor,
    WindFlutesShakuhachi,
    WindFlutesSlide,
    WindFlutesWhistleTin,
    WindFlutesWhistleTinBflat,
    WindFlutesWhistleTinD,
    WindGroup,
    WindPipesBagpipes,
    WindReedBassethorn,
    WindReedBassoon,
    WindReedChalumeau,
    WindReedClarinet,
    WindReedClarinetA,
    WindReedClarinetAlto,
    WindReedClarinetBass,
    WindReedClarinetBasset,
    WindReedClarinetBflat,
    WindReedClarinetContraalto,
    WindReedClarinetContrabass,
    WindReedClarinetEflat,
    WindReedClarinetPiccoloAflat,
    WindReedContrabass,
    WindReedContrabassoon,
    WindReedCornamuse,
    WindReedCromorne,
    WindReedCrumhorn,
    WindReedCrumhornAlto,
    WindReedCrumhornBass,
    WindReedCrumhornGreatbass,
    WindReedCrumhornSoprano,
    WindReedCrumhornTenor,
    WindReedDuduk,
    WindReedDulcian,
    WindReedEnglishhorn,
    WindReedHarmonica,
    WindReedHarmonicaBass,
    WindReedHeckelphone,
    WindReedHeckelphoneclarinet,
    WindReedHeckelphonePiccolo,
    WindReedMelodica,
    WindReedOboe,
    WindReedOboeBass,
    WindReedOboedacaccia,
    WindReedOboedamore,
    WindReedOboePiccolo,
    WindReedOctavin,
    WindReedRackett,
    WindReedRauschpfeife,
    WindReedSarrusaphone,
    WindReedSaxophone,
    WindReedSaxophoneAlto,
    WindReedSaxophoneAulochrome,
    WindReedSaxophoneBaritone,
    WindReedSaxophoneBass,
    WindReedSaxophoneContrabass,
    WindReedSaxophoneMelody,
    WindReedSaxophoneMezzosoprano,
    WindReedSaxophoneSopraninissimo,
    WindReedSaxophoneSopranino,
    WindReedSaxophoneSoprano,
    WindReedSaxophoneSubcontrabass,
    WindReedSaxophoneTenor,
    WindReedShawm,
    WindReedShenai,
    WindReedSheng,
    WindReedTarogato,
    WindReedXaphoon,
    WoodCastanets,
    WoodClaves,
    WoodGuiro,
    WoodSandblock,
    WoodTempleblock,
    WoodWoodblock,
}

/// The dotted identifier text of each sound.
pub open spec fn spec_sound_id(s: MusescoreInstrumentSound) -> Seq<char> {
    match s {
        MusescoreInstrumentSound::BrassAlphorn => "brass.alphorn"@,
        MusescoreInstrumentSound::BrassAltohorn => "brass.alto-horn"@,
        MusescoreInstrumentSound::BrassBaritonehorn => "brass.baritone-horn"@,
        MusescoreInstrumentSound::BrassBugle => "brass.bugle"@,
        MusescoreInstrumentSound::BrassBugleAlto => "brass.bugle.alto"@,
        MusescoreInstrumentSound::BrassBugleBaritone => "brass.bugle.baritone"@,
        MusescoreInstrumentSound::BrassBugleContrabass => "brass.bugle.contrabass"@,
        MusescoreInstrumentSound::BrassBugleEuphoniumbugle => "brass.bugle.euphonium-bugle"@,
        MusescoreInstrumentSound::BrassBugleMellophonebugle => "brass.bugle.mellophone-bugle"@,
        MusescoreInstrumentSound::BrassBugleSoprano => "brass.bugle.soprano"@,
        MusescoreInstrumentSound::BrassCimbasso => "brass.cimbasso"@,
        MusescoreInstrumentSound::BrassConchshell => "brass.conch-shell"@,
        MusescoreInstrumentSound::BrassCornet => "brass.cornet"@,
        MusescoreInstrumentSound::BrassCornetSoprano => "brass.cornet.soprano"@,
        MusescoreInstrumentSound::BrassCornett => "brass.cornett"@,
        MusescoreInstrumentSound::BrassCornettino => "brass.cornettino"@,
        MusescoreInstrumentSound::BrassCornettTenor => "brass.cornett.tenor"@,
        MusescoreInstrumentSound::BrassDidgeridoo => "brass.didgeridoo"@,
        MusescoreInstrumentSound::BrassEuphonium => "brass.euphonium"@,
        MusescoreInstrumentSound::BrassFiscorn => "brass.fiscorn"@,
        MusescoreInstrumentSound::BrassFlugelhorn => "brass.flugelhorn"@,
        MusescoreInstrumentSound::BrassFrenchhorn => "brass.french-horn"@,
        MusescoreInstrumentSound::BrassGroup => "brass.group"@,
        MusescoreInstrumentSound::BrassGroupSynth => "brass.group.synth"@,
        MusescoreInstrumentSound::BrassHelicon => "brass.helicon"@,
        MusescoreInstrumentSound::BrassHoragai => "brass.horagai"@,
        MusescoreInstrumentSound::BrassKuhlohorn => "brass.kuhlohorn"@,
        MusescoreInstrumentSound::BrassMellophone => "brass.mellophone"@,
        MusescoreInstrumentSound::BrassNaturalhorn => "brass.natural-horn"@,
        MusescoreInstrumentSound::BrassOphicleide => "brass.ophicleide"@,
        MusescoreInstrumentSound::BrassPosthorn => "brass.posthorn"@,
        MusescoreInstrumentSound::BrassRagdung => "brass.rag-dung"@,
        MusescoreInstrumentSound::BrassSackbuttAlto => "brass.sackbutt.alto"@,
        MusescoreInstrumentSound::BrassSackbuttBass => "brass.sackbutt.bass"@,
        MusescoreInstrumentSound::BrassSackbuttTenor => "brass.sackbutt.tenor"@,
        MusescoreInstrumentSound::BrassSaxhorn => "brass.saxhorn"@,
        MusescoreInstrumentSound::BrassSerpent => "brass.serpent"@,
        MusescoreInstrumentSound::BrassShofar => "brass.shofar"@,
        MusescoreInstrumentSound::BrassSousaphone => "brass.sousaphone"@,
        MusescoreInstrumentSound::BrassTrombone => "brass.trombone"@,
        MusescoreInstrumentSound::BrassTromboneAlto => "brass.trombone.alto"@,
        MusescoreInstrumentSound::BrassTromboneBass => "brass.trombone.bass"@,
        MusescoreInstrumentSound::BrassTromboneContrabass => "brass.trombone.contrabass"@,
        MusescoreInstrumentSound::BrassTromboneTenor => "brass.trombone.tenor"@,
        MusescoreInstrumentSound::BrassTrumpet => "brass.trumpet"@,
        MusescoreInstrumentSound::BrassTrumpetBaroque => "brass.trumpet.baroque"@,
        MusescoreInstrumentSound::BrassTrumpetBass => "brass.trumpet.bass"@,
        MusescoreInstrumentSound::BrassTrumpetBflat => "brass.trumpet.bflat"@,
        MusescoreInstrumentSound::BrassTrumpetC => "brass.trumpet.c"@,
        MusescoreInstrumentSound::BrassTrumpetD => "brass.trumpet.d"@,
        MusescoreInstrumentSound::BrassTrumpetPiccolo => "brass.trumpet.piccolo"@,
        MusescoreInstrumentSound::BrassTrumpetPocket => "brass.trumpet.pocket"@,
        MusescoreInstrumentSound::BrassTrumpetSlide => "brass.trumpet.slide"@,
        MusescoreInstrumentSound::BrassTrumpetTenor => "brass.trumpet.tenor"@,
        MusescoreInstrumentSound::BrassTuba => "brass.tuba"@,
        MusescoreInstrumentSound::BrassTubaBass => "brass.tuba.bass"@,
        MusescoreInstrumentSound::BrassTubaSubcontrabass => "brass.tuba.subcontrabass"@,
        MusescoreInstrumentSound::BrassViennahorn => "brass.vienna-horn"@,
        MusescoreInstrumentSound::BrassVuvuzela => "brass.vuvuzela"@,
        MusescoreInstrumentSound::BrassWagnertuba => "brass.wagner-tuba"@,
        MusescoreInstrumentSound::DrumBassdrum => "drum.bass-drum"@,
        MusescoreInstrumentSound::DrumBongo => "drum.bongo"@,
        MusescoreInstrumentSound::DrumConga => "drum.conga"@,
        MusescoreInstrumentSound::DrumCuica => "drum.cuica"@,
        MusescoreInstrumentSound::DrumFramedrum => "drum.frame-drum"@,
        MusescoreInstrumentSound::DrumGroupChinese => "drum.group.chinese"@,
        MusescoreInstrumentSound::DrumGroupSet => "drum.group.set"@,
        MusescoreInstrumentSound::DrumRototom => "drum.rototom"@,
        MusescoreInstrumentSound::DrumSlitdrum => "drum.slit-drum"@,
        MusescoreInstrumentSound::DrumSnaredrum => "drum.snare-drum"@,
        MusescoreInstrumentSound::DrumSnaredrumElectric => "drum.snare-drum.electric"@,
        MusescoreInstrumentSound::DrumTabla => "drum.tabla"@,
        MusescoreInstrumentSound::DrumTambourine => "drum.tambourine"@,
        MusescoreInstrumentSound::DrumTenordrum => "drum.tenor-drum"@,
        MusescoreInstrumentSound::DrumTimbale => "drum.timbale"@,
        MusescoreInstrumentSound::DrumTimpani => "drum.timpani"@,
        MusescoreInstrumentSound::DrumTomtom => "drum.tom-tom"@,
        MusescoreInstrumentSound::EffectHandclap => "effect.hand-clap"@,
        MusescoreInstrumentSound::EffectSlap => "effect.slap"@,
        MusescoreInstrumentSound::EffectSnap => "effect.snap"@,
        MusescoreInstrumentSound::EffectStamp => "effect.stamp"@,
        MusescoreInstrumentSound::EffectWhip => "effect.whip"@,
        MusescoreInstrumentSound::KeyboardAccordion => "keyboard.accordion"@,
        MusescoreInstrumentSound::KeyboardBandoneon => "keyboard.bandoneon"@,
        MusescoreInstrumentSound::KeyboardCelesta => "keyboard.celesta"@,
        MusescoreInstrumentSound::KeyboardClavichord => "keyboard.clavichord"@,
        MusescoreInstrumentSound::KeyboardClavichordSynth => "keyboard.clavichord.synth"@,
        MusescoreInstrumentSound::KeyboardConcertina => "keyboard.concertina"@,
        MusescoreInstrumentSound::KeyboardHarmonium => "keyboard.harmonium"@,
        MusescoreInstrumentSound::KeyboardHarpsichord => "keyboard.harpsichord"@,
        MusescoreInstrumentSound::KeyboardOndesmartenot => "keyboard.ondes-martenot"@,
        MusescoreInstrumentSound::KeyboardOrgan => "keyboard.organ"@,
        MusescoreInstrumentSound::KeyboardOrganDrawbar => "keyboard.organ.drawbar"@,
        MusescoreInstrumentSound::KeyboardOrganPercussive => "keyboard.organ.percussive"@,
        MusescoreInstrumentSound::KeyboardOrganPipe => "keyboard.organ.pipe"@,
        MusescoreInstrumentSound::KeyboardOrganReed => "keyboard.organ.reed"@,
        MusescoreInstrumentSound::KeyboardOrganRotary => "keyboard.organ.rotary"@,
        MusescoreInstrumentSound::KeyboardPiano => "keyboard.piano"@,
        MusescoreInstrumentSound::KeyboardPianoElectric => "keyboard.piano.electric"@,
        MusescoreInstrumentSound::KeyboardPianoGrand => "keyboard.piano.grand"@,
        MusescoreInstrumentSound::KeyboardPianoHonkytonk => "keyboard.piano.honky-tonk"@,
        MusescoreInstrumentSound::KeyboardPianoToy => "keyboard.piano.toy"@,
        MusescoreInstrumentSound::KeyboardPianoUpright => "keyboard.piano.upright"@,
        MusescoreInstrumentSound::KeyboardVirginal => "keyboard.virginal"@,
        MusescoreInstrumentSound::MetalAnvil => "metal.anvil"@,
        MusescoreInstrumentSound::MetalBellsAlmglocken => "metal.bells.almglocken"@,
        MusescoreInstrumentSound::MetalBellsBellplate => "metal.bells.bell-plate"@,
        MusescoreInstrumentSound::MetalBellsBelltree => "metal.bells.bell-tree"@,
        MusescoreInstrumentSound::MetalBellsCarillon => "metal.bells.carillon"@,
        MusescoreInstrumentSound::MetalBellsCowbell => "metal.bells.cowbell"@,
        MusescoreInstrumentSound::MetalBellsMarktree => "metal.bells.mark-tree"@,
        MusescoreInstrumentSound::MetalBellsSleighbells => "metal.bells.sleigh-bells"@,
        MusescoreInstrumentSound::MetalBellsWindchimes => "metal.bells.wind-chimes"@,
        MusescoreInstrumentSound::MetalBrakedrums => "metal.brake-drums"@,
        MusescoreInstrumentSound::MetalCrotales => "metal.crotales"@,
        MusescoreInstrumentSound::MetalCymbalChinese => "metal.cymbal.chinese"@,
        MusescoreInstrumentSound::MetalCymbalCrash => "metal.cymbal.crash"@,
        MusescoreInstrumentSound::MetalCymbalFinger => "metal.cymbal.finger"@,
        MusescoreInstrumentSound::MetalCymbalRide => "metal.cymbal.ride"@,
        MusescoreInstrumentSound::MetalCymbalSplash => "metal.cymbal.splash"@,
        MusescoreInstrumentSound::MetalFlexatone => "metal.flexatone"@,
        MusescoreInstrumentSound::MetalGong => "metal.gong"@,
        MusescoreInstrumentSound::MetalHihat => "metal.hi-hat"@,
        MusescoreInstrumentSound::MetalMusicalsaw => "metal.musical-saw"@,
        MusescoreInstrumentSound::MetalSteeldrums => "metal.steel-drums"@,
        MusescoreInstrumentSound::MetalTamtam => "metal.tamtam"@,
        MusescoreInstrumentSound::MetalThundersheet => "metal.thundersheet"@,
        MusescoreInstrumentSound::MetalTriangle => "metal.triangle"@,
        MusescoreInstrumentSound::PitchedpercussionCimbalom => "pitched-percussion.cimbalom"@,
        MusescoreInstrumentSound::PitchedpercussionCrystalglasses => "pitched-percussion.crystal-glasses"@,
        MusescoreInstrumentSound::PitchedpercussionGlassharmonica => "pitched-percussion.glass-harmonica"@,
        MusescoreInstrumentSound::PitchedpercussionGlockenspiel => "pitched-percussion.glockenspiel"@,
        MusescoreInstrumentSound::PitchedpercussionGlockenspielAlto => "pitched-percussion.glockenspiel.alto"@,
        MusescoreInstrumentSound::PitchedpercussionGlockenspielSoprano => "pitched-percussion.glockenspiel.soprano"@,
        MusescoreInstrumentSound::PitchedpercussionHammerdulcimer => "pitched-percussion.hammer-dulcimer"@,
        MusescoreInstrumentSound::PitchedpercussionHandbells => "pitched-percussion.handbells"@,
        MusescoreInstrumentSound::PitchedpercussionKalimba => "pitched-percussion.kalimba"@,
        MusescoreInstrumentSound::PitchedpercussionMarimba => "pitched-percussion.marimba"@,
        MusescoreInstrumentSound::PitchedpercussionMarimbaBass => "pitched-percussion.marimba.bass"@,
        MusescoreInstrumentSound::PitchedpercussionMetallophone => "pitched-percussion.metallophone"@,
        MusescoreInstrumentSound::PitchedpercussionMetallophoneAlto => "pitched-percussion.metallophone.alto"@,
        MusescoreInstrumentSound::PitchedpercussionMetallophoneBass => "pitched-percussion.metallophone.bass"@,
        MusescoreInstrumentSound::PitchedpercussionMetallophoneSoprano => "pitched-percussion.metallophone.soprano"@,
        MusescoreInstrumentSound::PitchedpercussionTubularbells => "pitched-percussion.tubular-bells"@,
        MusescoreInstrumentSound::PitchedpercussionVibraphone => "pitched-percussion.vibraphone"@,
        MusescoreInstrumentSound::PitchedpercussionXylomarimba => "pitched-percussion.xylomarimba"@,
        MusescoreInstrumentSound::PitchedpercussionXylophone => "pitched-percussion.xylophone"@,
        MusescoreInstrumentSound::PitchedpercussionXylophoneAlto => "pitched-percussion.xylophone.alto"@,
        MusescoreInstrumentSound::PitchedpercussionXylophoneSoprano => "pitched-percussion.xylophone.soprano"@,
        MusescoreInstrumentSound::PluckArchlute => "pluck.archlute"@,
        MusescoreInstrumentSound::PluckBalalaika => "pluck.balalaika"@,
        MusescoreInstrumentSound::PluckBalalaikaAlto => "pluck.balalaika.alto"@,
        MusescoreInstrumentSound::PluckBalalaikaBass => "pluck.balalaika.bass"@,
        MusescoreInstrumentSound::PluckBalalaikaContrabass => "pluck.balalaika.contrabass"@,
        MusescoreInstrumentSound::PluckBalalaikaPiccolo => "pluck.balalaika.piccolo"@,
        MusescoreInstrumentSound::PluckBalalaikaPrima => "pluck.balalaika.prima"@,
        MusescoreInstrumentSound::PluckBalalaikaSecunda => "pluck.balalaika.secunda"@,
        MusescoreInstrumentSound::PluckBandurria => "pluck.bandurria"@,
        MusescoreInstrumentSound::PluckBanjo => "pluck.banjo"@,
        MusescoreInstrumentSound::PluckBanjoTenor => "pluck.banjo.tenor"@,
        MusescoreInstrumentSound::PluckBass => "pluck.bass"@,
        MusescoreInstrumentSound::PluckBassAcoustic => "pluck.bass.acoustic"@,
        MusescoreInstrumentSound::PluckBassElectric => "pluck.bass.electric"@,
        MusescoreInstrumentSound::PluckBassFretless => "pluck.bass.fretless"@,
        MusescoreInstrumentSound::PluckBassSynth => "pluck.bass.synth"@,
        MusescoreInstrumentSound::PluckBouzouki => "pluck.bouzouki"@,
        MusescoreInstrumentSound::PluckDulcimer => "pluck.dulcimer"@,
        MusescoreInstrumentSound::PluckGuitar => "pluck.guitar"@,
        MusescoreInstrumentSound::PluckGuitarAcoustic => "pluck.guitar.acoustic"@,
        MusescoreInstrumentSound::PluckGuitarElectric => "pluck.guitar.electric"@,
        MusescoreInstrumentSound::PluckGuitarNylonstring => "pluck.guitar.nylon-string"@,
        MusescoreInstrumentSound::PluckGuitarPedalsteel => "pluck.guitar.pedal-steel"@,
        MusescoreInstrumentSound::PluckHarp => "pluck.harp"@,
        MusescoreInstrumentSound::PluckKoto => "pluck.koto"@,
        MusescoreInstrumentSound::PluckLaud => "pluck.laud"@,
        MusescoreInstrumentSound::PluckLute => "pluck.lute"@,
        MusescoreInstrumentSound::PluckMandocello => "pluck.mandocello"@,
        MusescoreInstrumentSound::PluckMandola => "pluck.mandola"@,
        MusescoreInstrumentSound::PluckMandolin => "pluck.mandolin"@,
        MusescoreInstrumentSound::PluckMandolinOctave => "pluck.mandolin.octave"@,
        MusescoreInstrumentSound::PluckOud => "pluck.oud"@,
        MusescoreInstrumentSound::PluckShamisen => "pluck.shamisen"@,
        MusescoreInstrumentSound::PluckSitar => "pluck.sitar"@,
        MusescoreInstrumentSound::PluckTambura => "pluck.tambura"@,
        MusescoreInstrumentSound::PluckTheorbo => "pluck.theorbo"@,
        MusescoreInstrumentSound::PluckUkulele => "pluck.ukulele"@,
        MusescoreInstrumentSound::PluckUkuleleTenor => "pluck.ukulele.tenor"@,
        MusescoreInstrumentSound::RattleCabasa => "rattle.cabasa"@,
        MusescoreInstrumentSound::RattleJawbone => "rattle.jawbone"@,
        MusescoreInstrumentSound::RattleLavastones => "rattle.lava-stones"@,
        MusescoreInstrumentSound::RattleMaraca => "rattle.maraca"@,
        MusescoreInstrumentSound::RattleRatchet => "rattle.ratchet"@,
        MusescoreInstrumentSound::RattleVibraslap => "rattle.vibraslap"@,
        MusescoreInstrumentSound::StringsBaryton => "strings.baryton"@,
        MusescoreInstrumentSound::StringsCello => "strings.cello"@,
        MusescoreInstrumentSound::StringsContrabass => "strings.contrabass"@,
        MusescoreInstrumentSound::StringsErhu => "strings.erhu"@,
        MusescoreInstrumentSound::StringsGroup => "strings.group"@,
        MusescoreInstrumentSound::StringsGroupSynth => "strings.group.synth"@,
        MusescoreInstrumentSound::StringsNyckelharpa => "strings.nyckelharpa"@,
        MusescoreInstrumentSound::StringsOctobass => "strings.octobass"@,
        MusescoreInstrumentSound::StringsViol => "strings.viol"@,
        MusescoreInstrumentSound::StringsViola => "strings.viola"@,
        MusescoreInstrumentSound::StringsViolAlto => "strings.viol.alto"@,
        MusescoreInstrumentSound::StringsViolin => "strings.violin"@,
        MusescoreInstrumentSound::StringsViolTenor => "strings.viol.tenor"@,
        MusescoreInstrumentSound::StringsViolTreble => "strings.viol.treble"@,
        MusescoreInstrumentSound::StringsViolViolone => "strings.viol.violone"@,
        MusescoreInstrumentSound::SynthEffects => "synth.effects"@,
        MusescoreInstrumentSound::SynthEffectsAtmosphere => "synth.effects.atmosphere"@,
        MusescoreInstrumentSound::SynthEffectsBrightness => "synth.effects.brightness"@,
        MusescoreInstrumentSound::SynthEffectsCrystal => "synth.effects.crystal"@,
        MusescoreInstrumentSound::SynthEffectsEchoes => "synth.effects.echoes"@,
        MusescoreInstrumentSound::SynthEffectsGoblins => "synth.effects.goblins"@,
        MusescoreInstrumentSound::SynthEffectsRain => "synth.effects.rain"@,
        MusescoreInstrumentSound::SynthEffectsScifi => "synth.effects.sci-fi"@,
        MusescoreInstrumentSound::SynthEffectsSoundtrack => "synth.effects.soundtrack"@,
        MusescoreInstrumentSound::SynthGroup => "synth.group"@,
        MusescoreInstrumentSound::SynthPad => "synth.pad"@,
        MusescoreInstrumentSound::SynthPadBowed => "synth.pad.bowed"@,
        MusescoreInstrumentSound::SynthPadChoir => "synth.pad.choir"@,
        MusescoreInstrumentSound::SynthPadHalo => "synth.pad.halo"@,
        MusescoreInstrumentSound::SynthPadMetallic => "synth.pad.metallic"@,
        MusescoreInstrumentSound::SynthPadPolysynth => "synth.pad.polysynth"@,
        MusescoreInstrumentSound::SynthPadWarm => "synth.pad.warm"@,
        MusescoreInstrumentSound::SynthTheremin => "synth.theremin"@,
        MusescoreInstrumentSound::SynthToneSawtooth => "synth.tone.sawtooth"@,
        MusescoreInstrumentSound::SynthToneSine => "synth.tone.sine"@,
        MusescoreInstrumentSound::VoiceAlto => "voice.alto"@,
        MusescoreInstrumentSound::VoiceBaritone => "voice.baritone"@,
        MusescoreInstrumentSound::VoiceBass => "voice.bass"@,
        MusescoreInstrumentSound::VoiceChild => "voice.child"@,
        MusescoreInstrumentSound::VoiceCountertenor => "voice.countertenor"@,
        MusescoreInstrumentSound::VoiceFemale => "voice.female"@,
        MusescoreInstrumentSound::VoiceKazoo => "voice.kazoo"@,
        MusescoreInstrumentSound::VoiceMale => "voice.male"@,
        MusescoreInstrumentSound::VoiceMezzosoprano => "voice.mezzo-soprano"@,
        MusescoreInstrumentSound::VoiceSoprano => "voice.soprano"@,
        MusescoreInstrumentSound::VoiceTenor => "voice.tenor"@,
        MusescoreInstrumentSound::VoiceVocals => "voice.vocals"@,
        MusescoreInstrumentSound::WindFlutesDanso => "wind.flutes.danso"@,
        MusescoreInstrumentSound::WindFlutesDizi => "wind.flutes.di-zi"@,
        MusescoreInstrumentSound::WindFlutesFife => "wind.flutes.fife"@,
        MusescoreInstrumentSound::WindFlutesFlageolet => "wind.flutes.flageolet"@,
        MusescoreInstrumentSound::WindFlutesFlute => "wind.flutes.flute"@,
        MusescoreInstrumentSound::WindFlutesFluteAlto => "wind.flutes.flute.alto"@,
        MusescoreInstrumentSound::WindFlutesFluteBass => "wind.flutes.flute.bass"@,
        MusescoreInstrumentSound::WindFlutesFluteContraalto => "wind.flutes.flute.contra-alto"@,
        MusescoreInstrumentSound::WindFlutesFluteContrabass => "wind.flutes.flute.contrabass"@,
        MusescoreInstrumentSound::WindFlutesFluteDoublecontrabass => "wind.flutes.flute.double-contrabass"@,
        MusescoreInstrumentSound::WindFlutesFluteIrish => "wind.flutes.flute.irish"@,
        MusescoreInstrumentSound::WindFlutesFlutePiccolo => "wind.flutes.flute.piccolo"@,
        MusescoreInstrumentSound::WindFlutesFluteSubcontrabass => "wind.flutes.flute.subcontrabass"@,
        MusescoreInstrumentSound::WindFlutesGemshorn => "wind.flutes.gemshorn"@,
        MusescoreInstrumentSound::WindFlutesOcarina => "wind.flutes.ocarina"@,
        MusescoreInstrumentSound::WindFlutesPanpipes => "wind.flutes.panpipes"@,
        MusescoreInstrumentSound::WindFlutesQuena => "wind.flutes.quena"@,
        MusescoreInstrumentSound::WindFlutesRecorder => "wind.flutes.recorder"@,
        MusescoreInstrumentSound::WindFlutesRecorderAlto => "wind.flutes.recorder.alto"@,
        MusescoreInstrumentSound::WindFlutesRecorderBass => "wind.flutes.recorder.bass"@,
        MusescoreInstrumentSound::WindFlutesRecorderContrabass => "wind.flutes.recorder.contrabass"@,
        MusescoreInstrumentSound::WindFlutesRecorderGarklein => "wind.flutes.recorder.garklein"@,
        MusescoreInstrumentSound::WindFlutesRecorderGreatbass => "wind.flutes.recorder.great-bass"@,
        MusescoreInstrumentSound::WindFlutesRecorderSopranino => "wind.flutes.recorder.sopranino"@,
        MusescoreInstrumentSound::WindFlutesRecorderSoprano => "wind.flutes.recorder.soprano"@,
        MusescoreInstrumentSound::WindFlutesRecorderTenor => "wind.flutes.recorder.tenor"@,
        MusescoreInstrumentSound::WindFlutesShakuhachi => "wind.flutes.shakuhachi"@,
        MusescoreInstrumentSound::WindFlutesSlide => "wind.flutes.slide"@,
        MusescoreInstrumentSound::WindFlutesWhistleTin => "wind.flutes.whistle.tin"@,
        MusescoreInstrumentSound::WindFlutesWhistleTinBflat => "wind.flutes.whistle.tin.bflat"@,
        MusescoreInstrumentSound::WindFlutesWhistleTinD => "wind.flutes.whistle.tin.d"@,
        MusescoreInstrumentSound::WindGroup => "wind.group"@,
        MusescoreInstrumentSound::WindPipesBagpipes => "wind.pipes.bagpipes"@,
        MusescoreInstrumentSound::WindReedBassethorn => "wind.reed.basset-horn"@,
        MusescoreInstrumentSound::WindReedBassoon => "wind.reed.bassoon"@,
        MusescoreInstrumentSound::WindReedChalumeau => "wind.reed.chalumeau"@,
        MusescoreInstrumentSound::WindReedClarinet => "wind.reed.clarinet"@,
        MusescoreInstrumentSound::WindReedClarinetA => "wind.reed.clarinet.a"@,
        MusescoreInstrumentSound::WindReedClarinetAlto => "wind.reed.clarinet.alto"@,
        MusescoreInstrumentSound::WindReedClarinetBass => "wind.reed.clarinet.bass"@,
        MusescoreInstrumentSound::WindReedClarinetBasset => "wind.reed.clarinet.basset"@,
        MusescoreInstrumentSound::WindReedClarinetBflat => "wind.reed.clarinet.bflat"@,
        MusescoreInstrumentSound::WindReedClarinetContraalto => "wind.reed.clarinet.contra-alto"@,
        MusescoreInstrumentSound::WindReedClarinetContrabass => "wind.reed.clarinet.contrabass"@,
        MusescoreInstrumentSound::WindReedClarinetEflat => "wind.reed.clarinet.eflat"@,
        MusescoreInstrumentSound::WindReedClarinetPiccoloAflat => "wind.reed.clarinet.piccolo.aflat"@,
        MusescoreInstrumentSound::WindReedContrabass => "wind.reed.contrabass"@,
        MusescoreInstrumentSound::WindReedContrabassoon => "wind.reed.contrabassoon"@,
        MusescoreInstrumentSound::WindReedCornamuse => "wind.reed.cornamuse"@,
        MusescoreInstrumentSound::WindReedCromorne => "wind.reed.cromorne"@,
        MusescoreInstrumentSound::WindReedCrumhorn => "wind.reed.crumhorn"@,
        MusescoreInstrumentSound::WindReedCrumhornAlto => "wind.reed.crumhorn.alto"@,
        MusescoreInstrumentSound::WindReedCrumhornBass => "wind.reed.crumhorn.bass"@,
        MusescoreInstrumentSound::WindReedCrumhornGreatbass => "wind.reed.crumhorn.great-bass"@,
        MusescoreInstrumentSound::WindReedCrumhornSoprano => "wind.reed.crumhorn.soprano"@,
        MusescoreInstrumentSound::WindReedCrumhornTenor => "wind.reed.crumhorn.tenor"@,
        MusescoreInstrumentSound::WindReedDuduk => "wind.reed.duduk"@,
        MusescoreInstrumentSound::WindReedDulcian => "wind.reed.dulcian"@,
        MusescoreInstrumentSound::WindReedEnglishhorn => "wind.reed.english-horn"@,
        MusescoreInstrumentSound::WindReedHarmonica => "wind.reed.harmonica"@,
        MusescoreInstrumentSound::WindReedHarmonicaBass => "wind.reed.harmonica.bass"@,
        MusescoreInstrumentSound::WindReedHeckelphone => "wind.reed.heckelphone"@,
        MusescoreInstrumentSound::WindReedHeckelphoneclarinet => "wind.reed.heckelphone-clarinet"@,
        MusescoreInstrumentSound::WindReedHeckelphonePiccolo => "wind.reed.heckelphone.piccolo"@,
        MusescoreInstrumentSound::WindReedMelodica => "wind.reed.melodica"@,
        MusescoreInstrumentSound::WindReedOboe => "wind.reed.oboe"@,
        MusescoreInstrumentSound::WindReedOboeBass => "wind.reed.oboe.bass"@,
        MusescoreInstrumentSound::WindReedOboedacaccia => "wind.reed.oboe-da-caccia"@,
        MusescoreInstrumentSound::WindReedOboedamore => "wind.reed.oboe-damore"@,
        MusescoreInstrumentSound::WindReedOboePiccolo => "wind.reed.oboe.piccolo"@,
        MusescoreInstrumentSound::WindReedOctavin => "wind.reed.octavin"@,
        MusescoreInstrumentSound::WindReedRackett => "wind.reed.rackett"@,
        MusescoreInstrumentSound::WindReedRauschpfeife => "wind.reed.rauschpfeife"@,
        MusescoreInstrumentSound::WindReedSarrusaphone => "wind.reed.sarrusaphone"@,
        MusescoreInstrumentSound::WindReedSaxophone => "wind.reed.saxophone"@,
        MusescoreInstrumentSound::WindReedSaxophoneAlto => "wind.reed.saxophone.alto"@,
        MusescoreInstrumentSound::WindReedSaxophoneAulochrome => "wind.reed.saxophone.aulochrome"@,
        MusescoreInstrumentSound::WindReedSaxophoneBaritone => "wind.reed.saxophone.baritone"@,
        MusescoreInstrumentSound::WindReedSaxophoneBass => "wind.reed.saxophone.bass"@,
        MusescoreInstrumentSound::WindReedSaxophoneContrabass => "wind.reed.saxophone.contrabass"@,
        MusescoreInstrumentSound::WindReedSaxophoneMelody => "wind.reed.saxophone.melody"@,
        MusescoreInstrumentSound::WindReedSaxophoneMezzosoprano => "wind.reed.saxophone.mezzo-soprano"@,
        MusescoreInstrumentSound::WindReedSaxophoneSopraninissimo => "wind.reed.saxophone.sopraninissimo"@,
        MusescoreInstrumentSound::WindReedSaxophoneSopranino => "wind.reed.saxophone.sopranino"@,
        MusescoreInstrumentSound::WindReedSaxophoneSoprano => "wind.reed.saxophone.soprano"@,
        MusescoreInstrumentSound::WindReedSaxophoneSubcontrabass => "wind.reed.saxophone.subcontrabass"@,
        MusescoreInstrumentSound::WindReedSaxophoneTenor => "wind.reed.saxophone.tenor"@,
        MusescoreInstrumentSound::WindReedShawm => "wind.reed.shawm"@,
        MusescoreInstrumentSound::WindReedShenai => "wind.reed.shenai"@,
        MusescoreInstrumentSound::WindReedSheng => "wind.reed.sheng"@,
        MusescoreInstrumentSound::WindReedTarogato => "wind.reed.tarogato"@,
        MusescoreInstrumentSound::WindReedXaphoon => "wind.reed.xaphoon"@,
        MusescoreInstrumentSound::WoodCastanets => "wood.castanets"@,
        MusescoreInstrumentSound::WoodClaves => "wood.claves"@,
        MusescoreInstrumentSound::WoodGuiro => "wood.guiro"@,
        MusescoreInstrumentSound::WoodSandblock => "wood.sand-block"@,
        MusescoreInstrumentSound::WoodTempleblock => "wood.temple-block"@,
        MusescoreInstrumentSound::WoodWoodblock => "wood.wood-block"@,
    }
}

impl MusescoreInstrumentSound {
    /// The identifier written into `<instrument-sound>`.
    #[verifier::rlimit(100)]
    pub fn to_id(&self) -> (r: String)
        ensures
            r@ == spec_sound_id(*self),
    {
        match self {
            Self::BrassAlphorn => "brass.alphorn".to_owned(),
            Self::BrassAltohorn => "brass.alto-horn".to_owned(),
            Self::BrassBaritonehorn => "brass.baritone-horn".to_owned(),
            Self::BrassBugle => "brass.bugle".to_owned(),
            Self::BrassBugleAlto => "brass.bugle.alto".to_owned(),
            Self::BrassBugleBaritone => "brass.bugle.baritone".to_owned(),
            Self::BrassBugleContrabass => "brass.bugle.contrabass".to_owned(),
            Self::BrassBugleEuphoniumbugle => "brass.bugle.euphonium-bugle".to_owned(),
            Self::BrassBugleMellophonebugle => "brass.bugle.mellophone-bugle".to_owned(),
            Self::BrassBugleSoprano => "brass.bugle.soprano".to_owned(),
            Self::BrassCimbasso => "brass.cimbasso".to_owned(),
            Self::BrassConchshell => "brass.conch-shell".to_owned(),
            Self::BrassCornet => "brass.cornet".to_owned(),
            Self::BrassCornetSoprano => "brass.cornet.soprano".to_owned(),
            Self::BrassCornett => "brass.cornett".to_owned(),
            Self::BrassCornettino => "brass.cornettino".to_owned(),
            Self::BrassCornettTenor => "brass.cornett.tenor".to_owned(),
            Self::BrassDidgeridoo => "brass.didgeridoo".to_owned(),
            Self::BrassEuphonium => "brass.euphonium".to_owned(),
            Self::BrassFiscorn => "brass.fiscorn".to_owned(),
            Self::BrassFlugelhorn => "brass.flugelhorn".to_owned(),
            Self::BrassFrenchhorn => "brass.french-horn".to_owned(),
            Self::BrassGroup => "brass.group".to_owned(),
            Self::BrassGroupSynth => "brass.group.synth".to_owned(),
            Self::BrassHelicon => "brass.helicon".to_owned(),
            Self::BrassHoragai => "brass.horagai".to_owned(),
            Self::BrassKuhlohorn => "brass.kuhlohorn".to_owned(),
            Self::BrassMellophone => "brass.mellophone".to_owned(),
            Self::BrassNaturalhorn => "brass.natural-horn".to_owned(),
            Self::BrassOphicleide => "brass.ophicleide".to_owned(),
            Self::BrassPosthorn => "brass.posthorn".to_owned(),
            Self::BrassRagdung => "brass.rag-dung".to_owned(),
            Self::BrassSackbuttAlto => "brass.sackbutt.alto".to_owned(),
            Self::BrassSackbuttBass => "brass.sackbutt.bass".to_owned(),
            Self::BrassSackbuttTenor => "brass.sackbutt.tenor".to_owned(),
            Self::BrassSaxhorn => "brass.saxhorn".to_owned(),
            Self::BrassSerpent => "brass.serpent".to_owned(),
            Self::BrassShofar => "brass.shofar".to_owned(),
            Self::BrassSousaphone => "brass.sousaphone".to_owned(),
            Self::BrassTrombone => "brass.trombone".to_owned(),
            Self::BrassTromboneAlto => "brass.trombone.alto".to_owned(),
            Self::BrassTromboneBass => "brass.trombone.bass".to_owned(),
            Self::BrassTromboneContrabass => "brass.trombone.contrabass".to_owned(),
            Self::BrassTromboneTenor => "brass.trombone.tenor".to_owned(),
            Self::BrassTrumpet => "brass.trumpet".to_owned(),
            Self::BrassTrumpetBaroque => "brass.trumpet.baroque".to_owned(),
            Self::BrassTrumpetBass => "brass.trumpet.bass".to_owned(),
            Self::BrassTrumpetBflat => "brass.trumpet.bflat".to_owned(),
            Self::BrassTrumpetC => "brass.trumpet.c".to_owned(),
            Self::BrassTrumpetD => "brass.trumpet.d".to_owned(),
            Self::BrassTrumpetPiccolo => "brass.trumpet.piccolo".to_owned(),
            Self::BrassTrumpetPocket => "brass.trumpet.pocket".to_owned(),
            Self::BrassTrumpetSlide => "brass.trumpet.slide".to_owned(),
            Self::BrassTrumpetTenor => "brass.trumpet.tenor".to_owned(),
            Self::BrassTuba => "brass.tuba".to_owned(),
            Self::BrassTubaBass => "brass.tuba.bass".to_owned(),
            Self::BrassTubaSubcontrabass => "brass.tuba.subcontrabass".to_owned(),
            Self::BrassViennahorn => "brass.vienna-horn".to_owned(),
            Self::BrassVuvuzela => "brass.vuvuzela".to_owned(),
            Self::BrassWagnertuba => "brass.wagner-tuba".to_owned(),
            Self::DrumBassdrum => "drum.bass-drum".to_owned(),
            Self::DrumBongo => "drum.bongo".to_owned(),
            Self::DrumConga => "drum.conga".to_owned(),
            Self::DrumCuica => "drum.cuica".to_owned(),
            Self::DrumFramedrum => "drum.frame-drum".to_owned(),
            Self::DrumGroupChinese => "drum.group.chinese".to_owned(),
            Self::DrumGroupSet => "drum.group.set".to_owned(),
            Self::DrumRototom => "drum.rototom".to_owned(),
            Self::DrumSlitdrum => "drum.slit-drum".to_owned(),
            Self::DrumSnaredrum => "drum.snare-drum".to_owned(),
            Self::DrumSnaredrumElectric => "drum.snare-drum.electric".to_owned(),
            Self::DrumTabla => "drum.tabla".to_owned(),
            Self::DrumTambourine => "drum.tambourine".to_owned(),
            Self::DrumTenordrum => "drum.tenor-drum".to_owned(),
            Self::DrumTimbale => "drum.timbale".to_owned(),
            Self::DrumTimpani => "drum.timpani".to_owned(),
            Self::DrumTomtom => "drum.tom-tom".to_owned(),
            Self::EffectHandclap => "effect.hand-clap".to_owned(),
            Self::EffectSlap => "effect.slap".to_owned(),
            Self::EffectSnap => "effect.snap".to_owned(),
            Self::EffectStamp => "effect.stamp".to_owned(),
            Self::EffectWhip => "effect.whip".to_owned(),
            Self::KeyboardAccordion => "keyboard.accordion".to_owned(),
            Self::KeyboardBandoneon => "keyboard.bandoneon".to_owned(),
            Self::KeyboardCelesta => "keyboard.celesta".to_owned(),
            Self::KeyboardClavichord => "keyboard.clavichord".to_owned(),
            Self::KeyboardClavichordSynth => "keyboard.clavichord.synth".to_owned(),
            Self::KeyboardConcertina => "keyboard.concertina".to_owned(),
            Self::KeyboardHarmonium => "keyboard.harmonium".to_owned(),
            Self::KeyboardHarpsichord => "keyboard.harpsichord".to_owned(),
            Self::KeyboardOndesmartenot => "keyboard.ondes-martenot".to_owned(),
            Self::KeyboardOrgan => "keyboard.organ".to_owned(),
            Self::KeyboardOrganDrawbar => "keyboard.organ.drawbar".to_owned(),
            Self::KeyboardOrganPercussive => "keyboard.organ.percussive".to_owned(),
            Self::KeyboardOrganPipe => "keyboard.organ.pipe".to_owned(),
            Self::KeyboardOrganReed => "keyboard.organ.reed".to_owned(),
            Self::KeyboardOrganRotary => "keyboard.organ.rotary".to_owned(),
            Self::KeyboardPiano => "keyboard.piano".to_owned(),
            Self::KeyboardPianoElectric => "keyboard.piano.electric".to_owned(),
            Self::KeyboardPianoGrand => "keyboard.piano.grand".to_owned(),
            Self::KeyboardPianoHonkytonk => "keyboard.piano.honky-tonk".to_owned(),
            Self::KeyboardPianoToy => "keyboard.piano.toy".to_owned(),
            Self::KeyboardPianoUpright => "keyboard.piano.upright".to_owned(),
            Self::KeyboardVirginal => "keyboard.virginal".to_owned(),
            Self::MetalAnvil => "metal.anvil".to_owned(),
            Self::MetalBellsAlmglocken => "metal.bells.almglocken".to_owned(),
            Self::MetalBellsBellplate => "metal.bells.bell-plate".to_owned(),
            Self::MetalBellsBelltree => "metal.bells.bell-tree".to_owned(),
            Self::MetalBellsCarillon => "metal.bells.carillon".to_owned(),
            Self::MetalBellsCowbell => "metal.bells.cowbell".to_owned(),
            Self::MetalBellsMarktree => "metal.bells.mark-tree".to_owned(),
            Self::MetalBellsSleighbells => "metal.bells.sleigh-bells".to_owned(),
            Self::MetalBellsWindchimes => "metal.bells.wind-chimes".to_owned(),
            Self::MetalBrakedrums => "metal.brake-drums".to_owned(),
            Self::MetalCrotales => "metal.crotales".to_owned(),
            Self::MetalCymbalChinese => "metal.cymbal.chinese".to_owned(),
            Self::MetalCymbalCrash => "metal.cymbal.crash".to_owned(),
            Self::MetalCymbalFinger => "metal.cymbal.finger".to_owned(),
            Self::MetalCymbalRide => "metal.cymbal.ride".to_owned(),
            Self::MetalCymbalSplash => "metal.cymbal.splash".to_owned(),
            Self::MetalFlexatone => "metal.flexatone".to_owned(),
            Self::MetalGong => "metal.gong".to_owned(),
            Self::MetalHihat => "metal.hi-hat".to_owned(),
            Self::MetalMusicalsaw => "metal.musical-saw".to_owned(),
            Self::MetalSteeldrums => "metal.steel-drums".to_owned(),
            Self::MetalTamtam => "metal.tamtam".to_owned(),
            Self::MetalThundersheet => "metal.thundersheet".to_owned(),
            Self::MetalTriangle => "metal.triangle".to_owned(),
            Self::PitchedpercussionCimbalom => "pitched-percussion.cimbalom".to_owned(),
            Self::PitchedpercussionCrystalglasses => "pitched-percussion.crystal-glasses".to_owned(),
            Self::PitchedpercussionGlassharmonica => "pitched-percussion.glass-harmonica".to_owned(),
            Self::PitchedpercussionGlockenspiel => "pitched-percussion.glockenspiel".to_owned(),
            Self::PitchedpercussionGlockenspielAlto => "pitched-percussion.glockenspiel.alto".to_owned(),
            Self::PitchedpercussionGlockenspielSoprano => "pitched-percussion.glockenspiel.soprano".to_owned(),
            Self::PitchedpercussionHammerdulcimer => "pitched-percussion.hammer-dulcimer".to_owned(),
            Self::PitchedpercussionHandbells => "pitched-percussion.handbells".to_owned(),
            Self::PitchedpercussionKalimba => "pitched-percussion.kalimba".to_owned(),
            Self::PitchedpercussionMarimba => "pitched-percussion.marimba".to_owned(),
            Self::PitchedpercussionMarimbaBass => "pitched-percussion.marimba.bass".to_owned(),
            Self::PitchedpercussionMetallophone => "pitched-percussion.metallophone".to_owned(),
            Self::PitchedpercussionMetallophoneAlto => "pitched-percussion.metallophone.alto".to_owned(),
            Self::PitchedpercussionMetallophoneBass => "pitched-percussion.metallophone.bass".to_owned(),
            Self::PitchedpercussionMetallophoneSoprano => "pitched-percussion.metallophone.soprano".to_owned(),
            Self::PitchedpercussionTubularbells => "pitched-percussion.tubular-bells".to_owned(),
            Self::PitchedpercussionVibraphone => "pitched-percussion.vibraphone".to_owned(),
            Self::PitchedpercussionXylomarimba => "pitched-percussion.xylomarimba".to_owned(),
            Self::PitchedpercussionXylophone => "pitched-percussion.xylophone".to_owned(),
            Self::PitchedpercussionXylophoneAlto => "pitched-percussion.xylophone.alto".to_owned(),
            Self::PitchedpercussionXylophoneSoprano => "pitched-percussion.xylophone.soprano".to_owned(),
            Self::PluckArchlute => "pluck.archlute".to_owned(),
            Self::PluckBalalaika => "pluck.balalaika".to_owned(),
            Self::PluckBalalaikaAlto => "pluck.balalaika.alto".to_owned(),
            Self::PluckBalalaikaBass => "pluck.balalaika.bass".to_owned(),
            Self::PluckBalalaikaContrabass => "pluck.balalaika.contrabass".to_owned(),
            Self::PluckBalalaikaPiccolo => "pluck.balalaika.piccolo".to_owned(),
            Self::PluckBalalaikaPrima => "pluck.balalaika.prima".to_owned(),
            Self::PluckBalalaikaSecunda => "pluck.balalaika.secunda".to_owned(),
            Self::PluckBandurria => "pluck.bandurria".to_owned(),
            Self::PluckBanjo => "pluck.banjo".to_owned(),
            Self::PluckBanjoTenor => "pluck.banjo.tenor".to_owned(),
            Self::PluckBass => "pluck.bass".to_owned(),
            Self::PluckBassAcoustic => "pluck.bass.acoustic".to_owned(),
            Self::PluckBassElectric => "pluck.bass.electric".to_owned(),
            Self::PluckBassFretless => "pluck.bass.fretless".to_owned(),
            Self::PluckBassSynth => "pluck.bass.synth".to_owned(),
            Self::PluckBouzouki => "pluck.bouzouki".to_owned(),
            Self::PluckDulcimer => "pluck.dulcimer".to_owned(),
            Self::PluckGuitar => "pluck.guitar".to_owned(),
            Self::PluckGuitarAcoustic => "pluck.guitar.acoustic".to_owned(),
            Self::PluckGuitarElectric => "pluck.guitar.electric".to_owned(),
            Self::PluckGuitarNylonstring => "pluck.guitar.nylon-string".to_owned(),
            Self::PluckGuitarPedalsteel => "pluck.guitar.pedal-steel".to_owned(),
            Self::PluckHarp => "pluck.harp".to_owned(),
            Self::PluckKoto => "pluck.koto".to_owned(),
            Self::PluckLaud => "pluck.laud".to_owned(),
            Self::PluckLute => "pluck.lute".to_owned(),
            Self::PluckMandocello => "pluck.mandocello".to_owned(),
            Self::PluckMandola => "pluck.mandola".to_owned(),
            Self::PluckMandolin => "pluck.mandolin".to_owned(),
            Self::PluckMandolinOctave => "pluck.mandolin.octave".to_owned(),
            Self::PluckOud => "pluck.oud".to_owned(),
            Self::PluckShamisen => "pluck.shamisen".to_owned(),
            Self::PluckSitar => "pluck.sitar".to_owned(),
            Self::PluckTambura => "pluck.tambura".to_owned(),
            Self::PluckTheorbo => "pluck.theorbo".to_owned(),
            Self::PluckUkulele => "pluck.ukulele".to_owned(),
            Self::PluckUkuleleTenor => "pluck.ukulele.tenor".to_owned(),
            Self::RattleCabasa => "rattle.cabasa".to_owned(),
            Self::RattleJawbone => "rattle.jawbone".to_owned(),
            Self::RattleLavastones => "rattle.lava-stones".to_owned(),
            Self::RattleMaraca => "rattle.maraca".to_owned(),
            Self::RattleRatchet => "rattle.ratchet".to_owned(),
            Self::RattleVibraslap => "rattle.vibraslap".to_owned(),
            Self::StringsBaryton => "strings.baryton".to_owned(),
            Self::StringsCello => "strings.cello".to_owned(),
            Self::StringsContrabass => "strings.contrabass".to_owned(),
            Self::StringsErhu => "strings.erhu".to_owned(),
            Self::StringsGroup => "strings.group".to_owned(),
            Self::StringsGroupSynth => "strings.group.synth".to_owned(),
            Self::StringsNyckelharpa => "strings.nyckelharpa".to_owned(),
            Self::StringsOctobass => "strings.octobass".to_owned(),
            Self::StringsViol => "strings.viol".to_owned(),
            Self::StringsViola => "strings.viola".to_owned(),
            Self::StringsViolAlto => "strings.viol.alto".to_owned(),
            Self::StringsViolin => "strings.violin".to_owned(),
            Self::StringsViolTenor => "strings.viol.tenor".to_owned(),
            Self::StringsViolTreble => "strings.viol.treble".to_owned(),
            Self::StringsViolViolone => "strings.viol.violone".to_owned(),
            Self::SynthEffects => "synth.effects".to_owned(),
            Self::SynthEffectsAtmosphere => "synth.effects.atmosphere".to_owned(),
            Self::SynthEffectsBrightness => "synth.effects.brightness".to_owned(),
            Self::SynthEffectsCrystal => "synth.effects.crystal".to_owned(),
            Self::SynthEffectsEchoes => "synth.effects.echoes".to_owned(),
            Self::SynthEffectsGoblins => "synth.effects.goblins".to_owned(),
            Self::SynthEffectsRain => "synth.effects.rain".to_owned(),
            Self::SynthEffectsScifi => "synth.effects.sci-fi".to_owned(),
            Self::SynthEffectsSoundtrack => "synth.effects.soundtrack".to_owned(),
            Self::SynthGroup => "synth.group".to_owned(),
            Self::SynthPad => "synth.pad".to_owned(),
            Self::SynthPadBowed => "synth.pad.bowed".to_owned(),
            Self::SynthPadChoir => "synth.pad.choir".to_owned(),
            Self::SynthPadHalo => "synth.pad.halo".to_owned(),
            Self::SynthPadMetallic => "synth.pad.metallic".to_owned(),
            Self::SynthPadPolysynth => "synth.pad.polysynth".to_owned(),
            Self::SynthPadWarm => "synth.pad.warm".to_owned(),
            Self::SynthTheremin => "synth.theremin".to_owned(),
            Self::SynthToneSawtooth => "synth.tone.sawtooth".to_owned(),
            Self::SynthToneSine => "synth.tone.sine".to_owned(),
            Self::VoiceAlto => "voice.alto".to_owned(),
            Self::VoiceBaritone => "voice.baritone".to_owned(),
            Self::VoiceBass => "voice.bass".to_owned(),
            Self::VoiceChild => "voice.child".to_owned(),
            Self::VoiceCountertenor => "voice.countertenor".to_owned(),
            Self::VoiceFemale => "voice.female".to_owned(),
            Self::VoiceKazoo => "voice.kazoo".to_owned(),
            Self::VoiceMale => "voice.male".to_owned(),
            Self::VoiceMezzosoprano => "voice.mezzo-soprano".to_owned(),
            Self::VoiceSoprano => "voice.soprano".to_owned(),
            Self::VoiceTenor => "voice.tenor".to_owned(),
            Self::VoiceVocals => "voice.vocals".to_owned(),
            Self::WindFlutesDanso => "wind.flutes.danso".to_owned(),
            Self::WindFlutesDizi => "wind.flutes.di-zi".to_owned(),
            Self::WindFlutesFife => "wind.flutes.fife".to_owned(),
            Self::WindFlutesFlageolet => "wind.flutes.flageolet".to_owned(),
            Self::WindFlutesFlute => "wind.flutes.flute".to_owned(),
            Self::WindFlutesFluteAlto => "wind.flutes.flute.alto".to_owned(),
            Self::WindFlutesFluteBass => "wind.flutes.flute.bass".to_owned(),
            Self::WindFlutesFluteContraalto => "wind.flutes.flute.contra-alto".to_owned(),
            Self::WindFlutesFluteContrabass => "wind.flutes.flute.contrabass".to_owned(),
            Self::WindFlutesFluteDoublecontrabass => "wind.flutes.flute.double-contrabass".to_owned(),
            Self::WindFlutesFluteIrish => "wind.flutes.flute.irish".to_owned(),
            Self::WindFlutesFlutePiccolo => "wind.flutes.flute.piccolo".to_owned(),
            Self::WindFlutesFluteSubcontrabass => "wind.flutes.flute.subcontrabass".to_owned(),
            Self::WindFlutesGemshorn => "wind.flutes.gemshorn".to_owned(),
            Self::WindFlutesOcarina => "wind.flutes.ocarina".to_owned(),
            Self::WindFlutesPanpipes => "wind.flutes.panpipes".to_owned(),
            Self::WindFlutesQuena => "wind.flutes.quena".to_owned(),
            Self::WindFlutesRecorder => "wind.flutes.recorder".to_owned(),
            Self::WindFlutesRecorderAlto => "wind.flutes.recorder.alto".to_owned(),
            Self::WindFlutesRecorderBass => "wind.flutes.recorder.bass".to_owned(),
            Self::WindFlutesRecorderContrabass => "wind.flutes.recorder.contrabass".to_owned(),
            Self::WindFlutesRecorderGarklein => "wind.flutes.recorder.garklein".to_owned(),
            Self::WindFlutesRecorderGreatbass => "wind.flutes.recorder.great-bass".to_owned(),
            Self::WindFlutesRecorderSopranino => "wind.flutes.recorder.sopranino".to_owned(),
            Self::WindFlutesRecorderSoprano => "wind.flutes.recorder.soprano".to_owned(),
            Self::WindFlutesRecorderTenor => "wind.flutes.recorder.tenor".to_owned(),
            Self::WindFlutesShakuhachi => "wind.flutes.shakuhachi".to_owned(),
            Self::WindFlutesSlide => "wind.flutes.slide".to_owned(),
            Self::WindFlutesWhistleTin => "wind.flutes.whistle.tin".to_owned(),
            Self::WindFlutesWhistleTinBflat => "wind.flutes.whistle.tin.bflat".to_owned(),
            Self::WindFlutesWhistleTinD => "wind.flutes.whistle.tin.d".to_owned(),
            Self::WindGroup => "wind.group".to_owned(),
            Self::WindPipesBagpipes => "wind.pipes.bagpipes".to_owned(),
            Self::WindReedBassethorn => "wind.reed.basset-horn".to_owned(),
            Self::WindReedBassoon => "wind.reed.bassoon".to_owned(),
            Self::WindReedChalumeau => "wind.reed.chalumeau".to_owned(),
            Self::WindReedClarinet => "wind.reed.clarinet".to_owned(),
            Self::WindReedClarinetA => "wind.reed.clarinet.a".to_owned(),
            Self::WindReedClarinetAlto => "wind.reed.clarinet.alto".to_owned(),
            Self::WindReedClarinetBass => "wind.reed.clarinet.bass".to_owned(),
            Self::WindReedClarinetBasset => "wind.reed.clarinet.basset".to_owned(),
            Self::WindReedClarinetBflat => "wind.reed.clarinet.bflat".to_owned(),
            Self::WindReedClarinetContraalto => "wind.reed.clarinet.contra-alto".to_owned(),
            Self::WindReedClarinetContrabass => "wind.reed.clarinet.contrabass".to_owned(),
            Self::WindReedClarinetEflat => "wind.reed.clarinet.eflat".to_owned(),
            Self::WindReedClarinetPiccoloAflat => "wind.reed.clarinet.piccolo.aflat".to_owned(),
            Self::WindReedContrabass => "wind.reed.contrabass".to_owned(),
            Self::WindReedContrabassoon => "wind.reed.contrabassoon".to_owned(),
            Self::WindReedCornamuse => "wind.reed.cornamuse".to_owned(),
            Self::WindReedCromorne => "wind.reed.cromorne".to_owned(),
            Self::WindReedCrumhorn => "wind.reed.crumhorn".to_owned(),
            Self::WindReedCrumhornAlto => "wind.reed.crumhorn.alto".to_owned(),
            Self::WindReedCrumhornBass => "wind.reed.crumhorn.bass".to_owned(),
            Self::WindReedCrumhornGreatbass => "wind.reed.crumhorn.great-bass".to_owned(),
            Self::WindReedCrumhornSoprano => "wind.reed.crumhorn.soprano".to_owned(),
            Self::WindReedCrumhornTenor => "wind.reed.crumhorn.tenor".to_owned(),
            Self::WindReedDuduk => "wind.reed.duduk".to_owned(),
            Self::WindReedDulcian => "wind.reed.dulcian".to_owned(),
            Self::WindReedEnglishhorn => "wind.reed.english-horn".to_owned(),
            Self::WindReedHarmonica => "wind.reed.harmonica".to_owned(),
            Self::WindReedHarmonicaBass => "wind.reed.harmonica.bass".to_owned(),
            Self::WindReedHeckelphone => "wind.reed.heckelphone".to_owned(),
            Self::WindReedHeckelphoneclarinet => "wind.reed.heckelphone-clarinet".to_owned(),
            Self::WindReedHeckelphonePiccolo => "wind.reed.heckelphone.piccolo".to_owned(),
            Self::WindReedMelodica => "wind.reed.melodica".to_owned(),
            Self::WindReedOboe => "wind.reed.oboe".to_owned(),
            Self::WindReedOboeBass => "wind.reed.oboe.bass".to_owned(),
            Self::WindReedOboedacaccia => "wind.reed.oboe-da-caccia".to_owned(),
            Self::WindReedOboedamore => "wind.reed.oboe-damore".to_owned(),
            Self::WindReedOboePiccolo => "wind.reed.oboe.piccolo".to_owned(),
            Self::WindReedOctavin => "wind.reed.octavin".to_owned(),
            Self::WindReedRackett => "wind.reed.rackett".to_owned(),
            Self::WindReedRauschpfeife => "wind.reed.rauschpfeife".to_owned(),
            Self::WindReedSarrusaphone => "wind.reed.sarrusaphone".to_owned(),
            Self::WindReedSaxophone => "wind.reed.saxophone".to_owned(),
            Self::WindReedSaxophoneAlto => "wind.reed.saxophone.alto".to_owned(),
            Self::WindReedSaxophoneAulochrome => "wind.reed.saxophone.aulochrome".to_owned(),
            Self::WindReedSaxophoneBaritone => "wind.reed.saxophone.baritone".to_owned(),
            Self::WindReedSaxophoneBass => "wind.reed.saxophone.bass".to_owned(),
            Self::WindReedSaxophoneContrabass => "wind.reed.saxophone.contrabass".to_owned(),
            Self::WindReedSaxophoneMelody => "wind.reed.saxophone.melody".to_owned(),
            Self::WindReedSaxophoneMezzosoprano => "wind.reed.saxophone.mezzo-soprano".to_owned(),
            Self::WindReedSaxophoneSopraninissimo => "wind.reed.saxophone.sopraninissimo".to_owned(),
            Self::WindReedSaxophoneSopranino => "wind.reed.saxophone.sopranino".to_owned(),
            Self::WindReedSaxophoneSoprano => "wind.reed.saxophone.soprano".to_owned(),
            Self::WindReedSaxophoneSubcontrabass => "wind.reed.saxophone.subcontrabass".to_owned(),
            Self::WindReedSaxophoneTenor => "wind.reed.saxophone.tenor".to_owned(),
            Self::WindReedShawm => "wind.reed.shawm".to_owned(),
            Self::WindReedShenai => "wind.reed.shenai".to_owned(),
            Self::WindReedSheng => "wind.reed.sheng".to_owned(),
            Self::WindReedTarogato => "wind.reed.tarogato".to_owned(),
            Self::WindReedXaphoon => "wind.reed.xaphoon".to_owned(),
            Self::WoodCastanets => "wood.castanets".to_owned(),
            Self::WoodClaves => "wood.claves".to_owned(),
            Self::WoodGuiro => "wood.guiro".to_owned(),
            Self::WoodSandblock => "wood.sand-block".to_owned(),
            Self::WoodTempleblock => "wood.temple-block".to_owned(),
            Self::WoodWoodblock => "wood.wood-block".to_owned(),
        }
    }
}

} // verus!
