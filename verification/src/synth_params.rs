//! The parameters of the polysynth, in the order of their ids. Ids 0..=73
//! are frozen: saved states and the UI refer to parameters by them.
use vstd::prelude::*;
use crate::plugin_abi::{ParamDef, ParamView, PARAM_IS_AUTOMATABLE, PARAM_IS_STEPPED};

verus! {

/// Total number of parameters.
pub const PARAM_COUNT: usize = 74;

/// One parameter; its id is its position in this list.
#[derive(Debug, Clone, Copy, PartialEq, Eq)]
pub enum Param {
    // Oscillator 1
    Osc1Shape,
    Osc1Coarse,
    Osc1Fine,
    Osc1ModLfo,
    Osc1ModEnv,
    Osc1FmAmount,
    Osc1FmEnv,
    Osc1FmLfo,
    // Mix
    MixOsc1,
    MixOsc2,
    MixNoise,
    MixNoiseType,
    PitchModSource,
    // Oscillator 2
    Osc2Shape,
    Osc2Coarse,
    Osc2Fine,
    Osc2Sync,
    Osc2ModLfo,
    Osc2ModEnv,
    // Filter
    FilterMode,
    FilterPole,
    FilterRes,
    FilterFreq,
    FilterEnvOn,
    FilterLfoOn,
    FilterKeytrack,
    FilterEnvAmount,
    FilterLfoAmount,
    // Output
    Volume,
    Mono,
    Legato,
    UnisonMode,
    Pan,
    Glide,
    // Filter envelope
    FilterAttack,
    FilterDecay,
    FilterSustain,
    FilterRelease,
    // Amp envelope
    AmpAttack,
    AmpDecay,
    AmpSustain,
    AmpRelease,
    // Mod envelope
    ModAttack,
    ModDecay,
    ModSustain,
    ModRelease,
    // LFO
    LfoRate,
    LfoSync,
    LfoShape,
    LfoRetrig,
    LfoDelay,
    // Mod FX
    ModFxType,
    ModFxRate,
    ModFxDepth,
    ModFxMix,
    // Space FX
    ReverbType,
    FxSync,
    FxTime,
    FxAmount,
    FxFeedback,
    FxDamping,
    // Arpeggiator
    ArpOn,
    ArpOctave,
    ArpRate,
    ArpMode,
    ArpGate,
    ArpSync,
    // Pitch
    PitchBendRange,
    PitchModAmount,
    VibratoRate,
    VibratoDepth,
    // Master
    MasterDrive,
    VoiceCount,
    MasterTune,
}

pub open spec fn spec_param_id(p: Param) -> nat {
    match p {
        Param::Osc1Shape => 0,
        Param::Osc1Coarse => 1,
        Param::Osc1Fine => 2,
        Param::Osc1ModLfo => 3,
        Param::Osc1ModEnv => 4,
        Param::Osc1FmAmount => 5,
        Param::Osc1FmEnv => 6,
        Param::Osc1FmLfo => 7,
        Param::MixOsc1 => 8,
        Param::MixOsc2 => 9,
        Param::MixNoise => 10,
        Param::MixNoiseType => 11,
        Param::PitchModSource => 12,
        Param::Osc2Shape => 13,
        Param::Osc2Coarse => 14,
        Param::Osc2Fine => 15,
        Param::Osc2Sync => 16,
        Param::Osc2ModLfo => 17,
        Param::Osc2ModEnv => 18,
        Param::FilterMode => 19,
        Param::FilterPole => 20,
        Param::FilterRes => 21,
        Param::FilterFreq => 22,
        Param::FilterEnvOn => 23,
        Param::FilterLfoOn => 24,
        Param::FilterKeytrack => 25,
        Param::FilterEnvAmount => 26,
        Param::FilterLfoAmount => 27,
        Param::Volume => 28,
        Param::Mono => 29,
        Param::Legato => 30,
        Param::UnisonMode => 31,
        Param::Pan => 32,
        Param::Glide => 33,
        Param::FilterAttack => 34,
        Param::FilterDecay => 35,
        Param::FilterSustain => 36,
        Param::FilterRelease => 37,
        Param::AmpAttack => 38,
        Param::AmpDecay => 39,
        Param::AmpSustain => 40,
        Param::AmpRelease => 41,
        Param::ModAttack => 42,
        Param::ModDecay => 43,
        Param::ModSustain => 44,
        Param::ModRelease => 45,
        Param::LfoRate => 46,
        Param::LfoSync => 47,
        Param::LfoShape => 48,
        Param::LfoRetrig => 49,
        Param::LfoDelay => 50,
        Param::ModFxType => 51,
        Param::ModFxRate => 52,
        Param::ModFxDepth => 53,
        Param::ModFxMix => 54,
        Param::ReverbType => 55,
        Param::FxSync => 56,
        Param::FxTime => 57,
        Param::FxAmount => 58,
        Param::FxFeedback => 59,
        Param::FxDamping => 60,
        Param::ArpOn => 61,
        Param::ArpOctave => 62,
        Param::ArpRate => 63,
        Param::ArpMode => 64,
        Param::ArpGate => 65,
        Param::ArpSync => 66,
        Param::PitchBendRange => 67,
        Param::PitchModAmount => 68,
        Param::VibratoRate => 69,
        Param::VibratoDepth => 70,
        Param::MasterDrive => 71,
        Param::VoiceCount => 72,
        Param::MasterTune => 73,
    }
}

pub open spec fn spec_param_of(i: nat) -> Option<Param> {
    if i == 0 {
        Some(Param::Osc1Shape)
    } else if i == 1 {
        Some(Param::Osc1Coarse)
    } else if i == 2 {
        Some(Param::Osc1Fine)
    } else if i == 3 {
        Some(Param::Osc1ModLfo)
    } else if i == 4 {
        Some(Param::Osc1ModEnv)
    } else if i == 5 {
        Some(Param::Osc1FmAmount)
    } else if i == 6 {
        Some(Param::Osc1FmEnv)
    } else if i == 7 {
        Some(Param::Osc1FmLfo)
    } else if i == 8 {
        Some(Param::MixOsc1)
    } else if i == 9 {
        Some(Param::MixOsc2)
    } else if i == 10 {
        Some(Param::MixNoise)
    } else if i == 11 {
        Some(Param::MixNoiseType)
    } else if i == 12 {
        Some(Param::PitchModSource)
    } else if i == 13 {
        Some(Param::Osc2Shape)
    } else if i == 14 {
        Some(Param::Osc2Coarse)
    } else if i == 15 {
        Some(Param::Osc2Fine)
    } else if i == 16 {
        Some(Param::Osc2Sync)
    } else if i == 17 {
        Some(Param::Osc2ModLfo)
    } else if i == 18 {
        Some(Param::Osc2ModEnv)
    } else if i == 19 {
        Some(Param::FilterMode)
    } else if i == 20 {
        Some(Param::FilterPole)
    } else if i == 21 {
        Some(Param::FilterRes)
    } else if i == 22 {
        Some(Param::FilterFreq)
    } else if i == 23 {
        Some(Param::FilterEnvOn)
    } else if i == 24 {
        Some(Param::FilterLfoOn)
    } else if i == 25 {
        Some(Param::FilterKeytrack)
    } else if i == 26 {
        Some(Param::FilterEnvAmount)
    } else if i == 27 {
        Some(Param::FilterLfoAmount)
    } else if i == 28 {
        Some(Param::Volume)
    } else if i == 29 {
        Some(Param::Mono)
    } else if i == 30 {
        Some(Param::Legato)
    } else if i == 31 {
        Some(Param::UnisonMode)
    } else if i == 32 {
        Some(Param::Pan)
    } else if i == 33 {
        Some(Param::Glide)
    } else if i == 34 {
        Some(Param::FilterAttack)
    } else if i == 35 {
        Some(Param::FilterDecay)
    } else if i == 36 {
        Some(Param::FilterSustain)
    } else if i == 37 {
        Some(Param::FilterRelease)
    } else if i == 38 {
        Some(Param::AmpAttack)
    } else if i == 39 {
        Some(Param::AmpDecay)
    } else if i == 40 {
        Some(Param::AmpSustain)
    } else if i == 41 {
        Some(Param::AmpRelease)
    } else if i == 42 {
        Some(Param::ModAttack)
    } else if i == 43 {
        Some(Param::ModDecay)
    } else if i == 44 {
        Some(Param::ModSustain)
    } else if i == 45 {
        Some(Param::ModRelease)
    } else if i == 46 {
        Some(Param::LfoRate)
    } else if i == 47 {
        Some(Param::LfoSync)
    } else if i == 48 {
        Some(Param::LfoShape)
    } else if i == 49 {
        Some(Param::LfoRetrig)
    } else if i == 50 {
        Some(Param::LfoDelay)
    } else if i == 51 {
        Some(Param::ModFxType)
    } else if i == 52 {
        Some(Param::ModFxRate)
    } else if i == 53 {
        Some(Param::ModFxDepth)
    } else if i == 54 {
        Some(Param::ModFxMix)
    } else if i == 55 {
        Some(Param::ReverbType)
    } else if i == 56 {
        Some(Param::FxSync)
    } else if i == 57 {
        Some(Param::FxTime)
    } else if i == 58 {
        Some(Param::FxAmount)
    } else if i == 59 {
        Some(Param::FxFeedback)
    } else if i == 60 {
        Some(Param::FxDamping)
    } else if i == 61 {
        Some(Param::ArpOn)
    } else if i == 62 {
        Some(Param::ArpOctave)
    } else if i == 63 {
        Some(Param::ArpRate)
    } else if i == 64 {
        Some(Param::ArpMode)
    } else if i == 65 {
        Some(Param::ArpGate)
    } else if i == 66 {
        Some(Param::ArpSync)
    } else if i == 67 {
        Some(Param::PitchBendRange)
    } else if i == 68 {
        Some(Param::PitchModAmount)
    } else if i == 69 {
        Some(Param::VibratoRate)
    } else if i == 70 {
        Some(Param::VibratoDepth)
    } else if i == 71 {
        Some(Param::MasterDrive)
    } else if i == 72 {
        Some(Param::VoiceCount)
    } else if i == 73 {
        Some(Param::MasterTune)
    } else {
        None
    }
}

impl Param {
    /// The parameter's id.
    pub fn id(self) -> (r: usize)
        ensures
            r == spec_param_id(self),
            r < PARAM_COUNT,
    {
        match self {
            Param::Osc1Shape => 0,
            Param::Osc1Coarse => 1,
            Param::Osc1Fine => 2,
            Param::Osc1ModLfo => 3,
            Param::Osc1ModEnv => 4,
            Param::Osc1FmAmount => 5,
            Param::Osc1FmEnv => 6,
            Param::Osc1FmLfo => 7,
            Param::MixOsc1 => 8,
            Param::MixOsc2 => 9,
            Param::MixNoise => 10,
            Param::MixNoiseType => 11,
            Param::PitchModSource => 12,
            Param::Osc2Shape => 13,
            Param::Osc2Coarse => 14,
            Param::Osc2Fine => 15,
            Param::Osc2Sync => 16,
            Param::Osc2ModLfo => 17,
            Param::Osc2ModEnv => 18,
            Param::FilterMode => 19,
            Param::FilterPole => 20,
            Param::FilterRes => 21,
            Param::FilterFreq => 22,
            Param::FilterEnvOn => 23,
            Param::FilterLfoOn => 24,
            Param::FilterKeytrack => 25,
            Param::FilterEnvAmount => 26,
            Param::FilterLfoAmount => 27,
            Param::Volume => 28,
            Param::Mono => 29,
            Param::Legato => 30,
            Param::UnisonMode => 31,
            Param::Pan => 32,
            Param::Glide => 33,
            Param::FilterAttack => 34,
            Param::FilterDecay => 35,
            Param::FilterSustain => 36,
            Param::FilterRelease => 37,
            Param::AmpAttack => 38,
            Param::AmpDecay => 39,
            Param::AmpSustain => 40,
            Param::AmpRelease => 41,
            Param::ModAttack => 42,
            Param::ModDecay => 43,
            Param::ModSustain => 44,
            Param::ModRelease => 45,
            Param::LfoRate => 46,
            Param::LfoSync => 47,
            Param::LfoShape => 48,
            Param::LfoRetrig => 49,
            Param::LfoDelay => 50,
            Param::ModFxType => 51,
            Param::ModFxRate => 52,
            Param::ModFxDepth => 53,
            Param::ModFxMix => 54,
            Param::ReverbType => 55,
            Param::FxSync => 56,
            Param::FxTime => 57,
            Param::FxAmount => 58,
            Param::FxFeedback => 59,
            Param::FxDamping => 60,
            Param::ArpOn => 61,
            Param::ArpOctave => 62,
            Param::ArpRate => 63,
            Param::ArpMode => 64,
            Param::ArpGate => 65,
            Param::ArpSync => 66,
            Param::PitchBendRange => 67,
            Param::PitchModAmount => 68,
            Param::VibratoRate => 69,
            Param::VibratoDepth => 70,
            Param::MasterDrive => 71,
            Param::VoiceCount => 72,
            Param::MasterTune => 73,
        }
    }

    /// The parameter with id `i`, if there is one.
    pub fn from_id(i: usize) -> (r: Option<Param>)
        ensures
            r == spec_param_of(i as nat),
    {
        match i {
            0 => Some(Param::Osc1Shape),
            1 => Some(Param::Osc1Coarse),
            2 => Some(Param::Osc1Fine),
            3 => Some(Param::Osc1ModLfo),
            4 => Some(Param::Osc1ModEnv),
            5 => Some(Param::Osc1FmAmount),
            6 => Some(Param::Osc1FmEnv),
            7 => Some(Param::Osc1FmLfo),
            8 => Some(Param::MixOsc1),
            9 => Some(Param::MixOsc2),
            10 => Some(Param::MixNoise),
            11 => Some(Param::MixNoiseType),
            12 => Some(Param::PitchModSource),
            13 => Some(Param::Osc2Shape),
            14 => Some(Param::Osc2Coarse),
            15 => Some(Param::Osc2Fine),
            16 => Some(Param::Osc2Sync),
            17 => Some(Param::Osc2ModLfo),
            18 => Some(Param::Osc2ModEnv),
            19 => Some(Param::FilterMode),
            20 => Some(Param::FilterPole),
            21 => Some(Param::FilterRes),
            22 => Some(Param::FilterFreq),
            23 => Some(Param::FilterEnvOn),
            24 => Some(Param::FilterLfoOn),
            25 => Some(Param::FilterKeytrack),
            26 => Some(Param::FilterEnvAmount),
            27 => Some(Param::FilterLfoAmount),
            28 => Some(Param::Volume),
            29 => Some(Param::Mono),
            30 => Some(Param::Legato),
            31 => Some(Param::UnisonMode),
            32 => Some(Param::Pan),
            33 => Some(Param::Glide),
            34 => Some(Param::FilterAttack),
            35 => Some(Param::FilterDecay),
            36 => Some(Param::FilterSustain),
            37 => Some(Param::FilterRelease),
            38 => Some(Param::AmpAttack),
            39 => Some(Param::AmpDecay),
            40 => Some(Param::AmpSustain),
            41 => Some(Param::AmpRelease),
            42 => Some(Param::ModAttack),
            43 => Some(Param::ModDecay),
            44 => Some(Param::ModSustain),
            45 => Some(Param::ModRelease),
            46 => Some(Param::LfoRate),
            47 => Some(Param::LfoSync),
            48 => Some(Param::LfoShape),
            49 => Some(Param::LfoRetrig),
            50 => Some(Param::LfoDelay),
            51 => Some(Param::ModFxType),
            52 => Some(Param::ModFxRate),
            53 => Some(Param::ModFxDepth),
            54 => Some(Param::ModFxMix),
            55 => Some(Param::ReverbType),
            56 => Some(Param::FxSync),
            57 => Some(Param::FxTime),
            58 => Some(Param::FxAmount),
            59 => Some(Param::FxFeedback),
            60 => Some(Param::FxDamping),
            61 => Some(Param::ArpOn),
            62 => Some(Param::ArpOctave),
            63 => Some(Param::ArpRate),
            64 => Some(Param::ArpMode),
            65 => Some(Param::ArpGate),
            66 => Some(Param::ArpSync),
            67 => Some(Param::PitchBendRange),
            68 => Some(Param::PitchModAmount),
            69 => Some(Param::VibratoRate),
            70 => Some(Param::VibratoDepth),
            71 => Some(Param::MasterDrive),
            72 => Some(Param::VoiceCount),
            73 => Some(Param::MasterTune),
            _ => None,
        }
    }
}

/// Ids and parameters correspond one to one: every parameter's id maps
/// back to it, and every id below the count names a parameter.
pub proof fn law_param_ids_round_trip(p: Param, i: nat)
    ensures
        spec_param_id(p) < PARAM_COUNT,
        spec_param_of(spec_param_id(p)) == Some(p),
        i < PARAM_COUNT <==> spec_param_of(i) is Some,
        spec_param_of(i) matches Some(q) ==> spec_param_id(q) == i,
{
}


// ---------------------------------------------------------------------------
// The parameter table
// ---------------------------------------------------------------------------

/// Parameter `i`'s NUL-terminated name, its bounds and default (as float
/// bits), and whether it is stepped.
pub open spec fn synth_row(i: int) -> (Seq<u8>, u64, u64, u64, bool) {
    if i == 0 {
        (seq![0x6fu8, 0x73, 0x63, 0x31, 0x5f, 0x73, 0x68, 0x61, 0x70, 0x65, 0x00], 0x0, 0x3ff0000000000000, 0x0, false)
    } else if i == 1 {
        (seq![0x6fu8, 0x73, 0x63, 0x31, 0x5f, 0x63, 0x6f, 0x61, 0x72, 0x73, 0x65, 0x00], 0xc038000000000000, 0x4038000000000000, 0x0, false)
    } else if i == 2 {
        (seq![0x6fu8, 0x73, 0x63, 0x31, 0x5f, 0x66, 0x69, 0x6e, 0x65, 0x00], 0xc059000000000000, 0x4059000000000000, 0x0, false)
    } else if i == 3 {
        (seq![0x6fu8, 0x73, 0x63, 0x31, 0x5f, 0x6d, 0x6f, 0x64, 0x5f, 0x6c, 0x66, 0x6f, 0x00], 0x0, 0x3ff0000000000000, 0x0, true)
    } else if i == 4 {
        (seq![0x6fu8, 0x73, 0x63, 0x31, 0x5f, 0x6d, 0x6f, 0x64, 0x5f, 0x65, 0x6e, 0x76, 0x00], 0x0, 0x3ff0000000000000, 0x0, true)
    } else if i == 5 {
        (seq![0x6fu8, 0x73, 0x63, 0x31, 0x5f, 0x66, 0x6d, 0x5f, 0x61, 0x6d, 0x6f, 0x75, 0x6e, 0x74, 0x00], 0x0, 0x3ff0000000000000, 0x0, false)
    } else if i == 6 {
        (seq![0x6fu8, 0x73, 0x63, 0x31, 0x5f, 0x66, 0x6d, 0x5f, 0x65, 0x6e, 0x76, 0x00], 0x0, 0x3ff0000000000000, 0x0, true)
    } else if i == 7 {
        (seq![0x6fu8, 0x73, 0x63, 0x31, 0x5f, 0x66, 0x6d, 0x5f, 0x6c, 0x66, 0x6f, 0x00], 0x0, 0x3ff0000000000000, 0x0, true)
    } else if i == 8 {
        (seq![0x6du8, 0x69, 0x78, 0x5f, 0x6f, 0x73, 0x63, 0x31, 0x00], 0x0, 0x3ff0000000000000, 0x3fe6666666666666, false)
    } else if i == 9 {
        (seq![0x6du8, 0x69, 0x78, 0x5f, 0x6f, 0x73, 0x63, 0x32, 0x00], 0x0, 0x3ff0000000000000, 0x0, false)
    } else if i == 10 {
        (seq![0x6du8, 0x69, 0x78, 0x5f, 0x6e, 0x6f, 0x69, 0x73, 0x65, 0x00], 0x0, 0x3ff0000000000000, 0x0, false)
    } else if i == 11 {
        (seq![0x6du8, 0x69, 0x78, 0x5f, 0x6e, 0x6f, 0x69, 0x73, 0x65, 0x5f, 0x74, 0x79, 0x70, 0x65, 0x00], 0x0, 0x3ff0000000000000, 0x0, true)
    } else if i == 12 {
        (seq![0x70u8, 0x69, 0x74, 0x63, 0x68, 0x5f, 0x6d, 0x6f, 0x64, 0x5f, 0x73, 0x6f, 0x75, 0x72, 0x63, 0x65, 0x00], 0x0, 0x3ff0000000000000, 0x0, true)
    } else if i == 13 {
        (seq![0x6fu8, 0x73, 0x63, 0x32, 0x5f, 0x73, 0x68, 0x61, 0x70, 0x65, 0x00], 0x0, 0x3ff0000000000000, 0x0, false)
    } else if i == 14 {
        (seq![0x6fu8, 0x73, 0x63, 0x32, 0x5f, 0x63, 0x6f, 0x61, 0x72, 0x73, 0x65, 0x00], 0xc038000000000000, 0x4038000000000000, 0x0, false)
    } else if i == 15 {
        (seq![0x6fu8, 0x73, 0x63, 0x32, 0x5f, 0x66, 0x69, 0x6e, 0x65, 0x00], 0xc059000000000000, 0x4059000000000000, 0x0, false)
    } else if i == 16 {
        (seq![0x6fu8, 0x73, 0x63, 0x32, 0x5f, 0x73, 0x79, 0x6e, 0x63, 0x00], 0x0, 0x3ff0000000000000, 0x0, true)
    } else if i == 17 {
        (seq![0x6fu8, 0x73, 0x63, 0x32, 0x5f, 0x6d, 0x6f, 0x64, 0x5f, 0x6c, 0x66, 0x6f, 0x00], 0x0, 0x3ff0000000000000, 0x0, true)
    } else if i == 18 {
        (seq![0x6fu8, 0x73, 0x63, 0x32, 0x5f, 0x6d, 0x6f, 0x64, 0x5f, 0x65, 0x6e, 0x76, 0x00], 0x0, 0x3ff0000000000000, 0x0, true)
    } else if i == 19 {
        (seq![0x66u8, 0x69, 0x6c, 0x74, 0x65, 0x72, 0x5f, 0x6d, 0x6f, 0x64, 0x65, 0x00], 0x0, 0x4000000000000000, 0x0, true)
    } else if i == 20 {
        (seq![0x66u8, 0x69, 0x6c, 0x74, 0x65, 0x72, 0x5f, 0x70, 0x6f, 0x6c, 0x65, 0x00], 0x0, 0x3ff0000000000000, 0x3ff0000000000000, true)
    } else if i == 21 {
        (seq![0x66u8, 0x69, 0x6c, 0x74, 0x65, 0x72, 0x5f, 0x72, 0x65, 0x73, 0x00], 0x0, 0x3ff0000000000000, 0x0, false)
    } else if i == 22 {
        (seq![0x66u8, 0x69, 0x6c, 0x74, 0x65, 0x72, 0x5f, 0x66, 0x72, 0x65, 0x71, 0x00], 0x4034000000000000, 0x40d3880000000000, 0x40d3880000000000, false)
    } else if i == 23 {
        (seq![0x66u8, 0x69, 0x6c, 0x74, 0x65, 0x72, 0x5f, 0x65, 0x6e, 0x76, 0x5f, 0x6f, 0x6e, 0x00], 0x0, 0x3ff0000000000000, 0x0, true)
    } else if i == 24 {
        (seq![0x66u8, 0x69, 0x6c, 0x74, 0x65, 0x72, 0x5f, 0x6c, 0x66, 0x6f, 0x5f, 0x6f, 0x6e, 0x00], 0x0, 0x3ff0000000000000, 0x0, true)
    } else if i == 25 {
        (seq![0x66u8, 0x69, 0x6c, 0x74, 0x65, 0x72, 0x5f, 0x6b, 0x65, 0x79, 0x74, 0x72, 0x61, 0x63, 0x6b, 0x00], 0x0, 0x3ff0000000000000, 0x0, false)
    } else if i == 26 {
        (seq![0x66u8, 0x69, 0x6c, 0x74, 0x65, 0x72, 0x5f, 0x65, 0x6e, 0x76, 0x5f, 0x61, 0x6d, 0x6f, 0x75, 0x6e, 0x74, 0x00], 0xbff0000000000000, 0x3ff0000000000000, 0x3fe0000000000000, false)
    } else if i == 27 {
        (seq![0x66u8, 0x69, 0x6c, 0x74, 0x65, 0x72, 0x5f, 0x6c, 0x66, 0x6f, 0x5f, 0x61, 0x6d, 0x6f, 0x75, 0x6e, 0x74, 0x00], 0x0, 0x3ff0000000000000, 0x0, false)
    } else if i == 28 {
        (seq![0x76u8, 0x6f, 0x6c, 0x75, 0x6d, 0x65, 0x00], 0x0, 0x3ff0000000000000, 0x3fe6666666666666, false)
    } else if i == 29 {
        (seq![0x6du8, 0x6f, 0x6e, 0x6f, 0x00], 0x0, 0x3ff0000000000000, 0x0, true)
    } else if i == 30 {
        (seq![0x6cu8, 0x65, 0x67, 0x61, 0x74, 0x6f, 0x00], 0x0, 0x3ff0000000000000, 0x0, true)
    } else if i == 31 {
        (seq![0x75u8, 0x6e, 0x69, 0x73, 0x6f, 0x6e, 0x5f, 0x6d, 0x6f, 0x64, 0x65, 0x00], 0x0, 0x4008000000000000, 0x0, true)
    } else if i == 32 {
        (seq![0x70u8, 0x61, 0x6e, 0x00], 0xbff0000000000000, 0x3ff0000000000000, 0x0, false)
    } else if i == 33 {
        (seq![0x67u8, 0x6c, 0x69, 0x64, 0x65, 0x00], 0x0, 0x409f400000000000, 0x0, false)
    } else if i == 34 {
        (seq![0x66u8, 0x69, 0x6c, 0x74, 0x65, 0x72, 0x5f, 0x61, 0x74, 0x74, 0x61, 0x63, 0x6b, 0x00], 0x3f50624dd2f1a9fc, 0x4020000000000000, 0x3f847ae147ae147b, false)
    } else if i == 35 {
        (seq![0x66u8, 0x69, 0x6c, 0x74, 0x65, 0x72, 0x5f, 0x64, 0x65, 0x63, 0x61, 0x79, 0x00], 0x3f50624dd2f1a9fc, 0x4020000000000000, 0x3fd3333333333333, false)
    } else if i == 36 {
        (seq![0x66u8, 0x69, 0x6c, 0x74, 0x65, 0x72, 0x5f, 0x73, 0x75, 0x73, 0x74, 0x61, 0x69, 0x6e, 0x00], 0x0, 0x3ff0000000000000, 0x3fd3333333333333, false)
    } else if i == 37 {
        (seq![0x66u8, 0x69, 0x6c, 0x74, 0x65, 0x72, 0x5f, 0x72, 0x65, 0x6c, 0x65, 0x61, 0x73, 0x65, 0x00], 0x3f50624dd2f1a9fc, 0x4020000000000000, 0x3fd3333333333333, false)
    } else if i == 38 {
        (seq![0x61u8, 0x6d, 0x70, 0x5f, 0x61, 0x74, 0x74, 0x61, 0x63, 0x6b, 0x00], 0x3f50624dd2f1a9fc, 0x4020000000000000, 0x3f847ae147ae147b, false)
    } else if i == 39 {
        (seq![0x61u8, 0x6d, 0x70, 0x5f, 0x64, 0x65, 0x63, 0x61, 0x79, 0x00], 0x3f50624dd2f1a9fc, 0x4020000000000000, 0x3fb999999999999a, false)
    } else if i == 40 {
        (seq![0x61u8, 0x6d, 0x70, 0x5f, 0x73, 0x75, 0x73, 0x74, 0x61, 0x69, 0x6e, 0x00], 0x0, 0x3ff0000000000000, 0x3fe6666666666666, false)
    } else if i == 41 {
        (seq![0x61u8, 0x6d, 0x70, 0x5f, 0x72, 0x65, 0x6c, 0x65, 0x61, 0x73, 0x65, 0x00], 0x3f50624dd2f1a9fc, 0x4020000000000000, 0x3fd3333333333333, false)
    } else if i == 42 {
        (seq![0x6du8, 0x6f, 0x64, 0x5f, 0x61, 0x74, 0x74, 0x61, 0x63, 0x6b, 0x00], 0x3f50624dd2f1a9fc, 0x4020000000000000, 0x3f847ae147ae147b, false)
    } else if i == 43 {
        (seq![0x6du8, 0x6f, 0x64, 0x5f, 0x64, 0x65, 0x63, 0x61, 0x79, 0x00], 0x3f50624dd2f1a9fc, 0x4020000000000000, 0x3fd3333333333333, false)
    } else if i == 44 {
        (seq![0x6du8, 0x6f, 0x64, 0x5f, 0x73, 0x75, 0x73, 0x74, 0x61, 0x69, 0x6e, 0x00], 0x0, 0x3ff0000000000000, 0x3fe0000000000000, false)
    } else if i == 45 {
        (seq![0x6du8, 0x6f, 0x64, 0x5f, 0x72, 0x65, 0x6c, 0x65, 0x61, 0x73, 0x65, 0x00], 0x3f50624dd2f1a9fc, 0x4020000000000000, 0x3fd3333333333333, false)
    } else if i == 46 {
        (seq![0x6cu8, 0x66, 0x6f, 0x5f, 0x72, 0x61, 0x74, 0x65, 0x00], 0x3f847ae147ae147b, 0x4049000000000000, 0x3ff0000000000000, false)
    } else if i == 47 {
        (seq![0x6cu8, 0x66, 0x6f, 0x5f, 0x73, 0x79, 0x6e, 0x63, 0x00], 0x0, 0x3ff0000000000000, 0x0, true)
    } else if i == 48 {
        (seq![0x6cu8, 0x66, 0x6f, 0x5f, 0x73, 0x68, 0x61, 0x70, 0x65, 0x00], 0x0, 0x4010000000000000, 0x0, true)
    } else if i == 49 {
        (seq![0x6cu8, 0x66, 0x6f, 0x5f, 0x72, 0x65, 0x74, 0x72, 0x69, 0x67, 0x00], 0x0, 0x3ff0000000000000, 0x0, true)
    } else if i == 50 {
        (seq![0x6cu8, 0x66, 0x6f, 0x5f, 0x64, 0x65, 0x6c, 0x61, 0x79, 0x00], 0x0, 0x4000000000000000, 0x0, false)
    } else if i == 51 {
        (seq![0x6du8, 0x6f, 0x64, 0x66, 0x78, 0x5f, 0x74, 0x79, 0x70, 0x65, 0x00], 0x0, 0x4008000000000000, 0x0, true)
    } else if i == 52 {
        (seq![0x6du8, 0x6f, 0x64, 0x66, 0x78, 0x5f, 0x72, 0x61, 0x74, 0x65, 0x00], 0x3f847ae147ae147b, 0x4024000000000000, 0x3ff0000000000000, false)
    } else if i == 53 {
        (seq![0x6du8, 0x6f, 0x64, 0x66, 0x78, 0x5f, 0x64, 0x65, 0x70, 0x74, 0x68, 0x00], 0x0, 0x3ff0000000000000, 0x3fe0000000000000, false)
    } else if i == 54 {
        (seq![0x6du8, 0x6f, 0x64, 0x66, 0x78, 0x5f, 0x6d, 0x69, 0x78, 0x00], 0x0, 0x3ff0000000000000, 0x3fe0000000000000, false)
    } else if i == 55 {
        (seq![0x72u8, 0x65, 0x76, 0x65, 0x72, 0x62, 0x5f, 0x74, 0x79, 0x70, 0x65, 0x00], 0x0, 0x4008000000000000, 0x0, true)
    } else if i == 56 {
        (seq![0x66u8, 0x78, 0x5f, 0x73, 0x79, 0x6e, 0x63, 0x00], 0x0, 0x3ff0000000000000, 0x0, true)
    } else if i == 57 {
        (seq![0x66u8, 0x78, 0x5f, 0x74, 0x69, 0x6d, 0x65, 0x00], 0x0, 0x4010000000000000, 0x3fe0000000000000, false)
    } else if i == 58 {
        (seq![0x66u8, 0x78, 0x5f, 0x61, 0x6d, 0x6f, 0x75, 0x6e, 0x74, 0x00], 0x0, 0x3ff0000000000000, 0x3fd3333333333333, false)
    } else if i == 59 {
        (seq![0x66u8, 0x78, 0x5f, 0x66, 0x65, 0x65, 0x64, 0x62, 0x61, 0x63, 0x6b, 0x00], 0x0, 0x3fee666666666666, 0x3fd3333333333333, false)
    } else if i == 60 {
        (seq![0x66u8, 0x78, 0x5f, 0x64, 0x61, 0x6d, 0x70, 0x69, 0x6e, 0x67, 0x00], 0x0, 0x3ff0000000000000, 0x3fe0000000000000, false)
    } else if i == 61 {
        (seq![0x61u8, 0x72, 0x70, 0x5f, 0x6f, 0x6e, 0x00], 0x0, 0x3ff0000000000000, 0x0, true)
    } else if i == 62 {
        (seq![0x61u8, 0x72, 0x70, 0x5f, 0x6f, 0x63, 0x74, 0x61, 0x76, 0x65, 0x00], 0x0, 0x4008000000000000, 0x0, true)
    } else if i == 63 {
        (seq![0x61u8, 0x72, 0x70, 0x5f, 0x72, 0x61, 0x74, 0x65, 0x00], 0x3fe0000000000000, 0x403e000000000000, 0x4010000000000000, false)
    } else if i == 64 {
        (seq![0x61u8, 0x72, 0x70, 0x5f, 0x6d, 0x6f, 0x64, 0x65, 0x00], 0x0, 0x4008000000000000, 0x0, true)
    } else if i == 65 {
        (seq![0x61u8, 0x72, 0x70, 0x5f, 0x67, 0x61, 0x74, 0x65, 0x00], 0x3fb999999999999a, 0x3ff0000000000000, 0x3fe0000000000000, false)
    } else if i == 66 {
        (seq![0x61u8, 0x72, 0x70, 0x5f, 0x73, 0x79, 0x6e, 0x63, 0x00], 0x0, 0x3ff0000000000000, 0x0, true)
    } else if i == 67 {
        (seq![0x70u8, 0x69, 0x74, 0x63, 0x68, 0x5f, 0x62, 0x65, 0x6e, 0x64, 0x5f, 0x72, 0x61, 0x6e, 0x67, 0x65, 0x00], 0x0, 0x4038000000000000, 0x4000000000000000, false)
    } else if i == 68 {
        (seq![0x70u8, 0x69, 0x74, 0x63, 0x68, 0x5f, 0x6d, 0x6f, 0x64, 0x5f, 0x61, 0x6d, 0x6f, 0x75, 0x6e, 0x74, 0x00], 0x0, 0x4038000000000000, 0x0, false)
    } else if i == 69 {
        (seq![0x76u8, 0x69, 0x62, 0x72, 0x61, 0x74, 0x6f, 0x5f, 0x72, 0x61, 0x74, 0x65, 0x00], 0x3fb999999999999a, 0x402e000000000000, 0x4014000000000000, false)
    } else if i == 70 {
        (seq![0x76u8, 0x69, 0x62, 0x72, 0x61, 0x74, 0x6f, 0x5f, 0x64, 0x65, 0x70, 0x74, 0x68, 0x00], 0x0, 0x3ff0000000000000, 0x0, false)
    } else if i == 71 {
        (seq![0x6du8, 0x61, 0x73, 0x74, 0x65, 0x72, 0x5f, 0x64, 0x72, 0x69, 0x76, 0x65, 0x00], 0x0, 0x3ff0000000000000, 0x0, false)
    } else if i == 72 {
        (seq![0x76u8, 0x6f, 0x69, 0x63, 0x65, 0x5f, 0x63, 0x6f, 0x75, 0x6e, 0x74, 0x00], 0x0, 0x4008000000000000, 0x4000000000000000, false)
    } else if i == 73 {
        (seq![0x6du8, 0x61, 0x73, 0x74, 0x65, 0x72, 0x5f, 0x74, 0x75, 0x6e, 0x65, 0x00], 0xc059000000000000, 0x4059000000000000, 0x0, false)
    } else {
        (seq![0u8], 0, 0, 0, false)
    }
}

/// Entry `i` of the parameter table: id `i`, automatable (and stepped
/// where marked), ungrouped.
pub open spec fn synth_entry(i: int) -> ParamView {
    let (name, mn, mx, d, stepped) = synth_row(i);
    ParamView {
        id: i as u32,
        flags: if stepped { PARAM_IS_AUTOMATABLE | PARAM_IS_STEPPED } else { PARAM_IS_AUTOMATABLE },
        name,
        module: seq![0u8],
        min_bits: mn,
        max_bits: mx,
        default_bits: d,
    }
}

fn synth_row_exec(i: usize) -> (r: (&'static [u8], u64, u64, u64, bool))
    requires
        i < PARAM_COUNT,
    ensures
        (r.0@, r.1, r.2, r.3, r.4) == synth_row(i as int),
{
    let r: (&'static [u8], u64, u64, u64, bool) = match i {
        0 => (&[0x6f, 0x73, 0x63, 0x31, 0x5f, 0x73, 0x68, 0x61, 0x70, 0x65, 0x00], 0x0, 0x3ff0000000000000, 0x0, false),
        1 => (&[0x6f, 0x73, 0x63, 0x31, 0x5f, 0x63, 0x6f, 0x61, 0x72, 0x73, 0x65, 0x00], 0xc038000000000000, 0x4038000000000000, 0x0, false),
        2 => (&[0x6f, 0x73, 0x63, 0x31, 0x5f, 0x66, 0x69, 0x6e, 0x65, 0x00], 0xc059000000000000, 0x4059000000000000, 0x0, false),
        3 => (&[0x6f, 0x73, 0x63, 0x31, 0x5f, 0x6d, 0x6f, 0x64, 0x5f, 0x6c, 0x66, 0x6f, 0x00], 0x0, 0x3ff0000000000000, 0x0, true),
        4 => (&[0x6f, 0x73, 0x63, 0x31, 0x5f, 0x6d, 0x6f, 0x64, 0x5f, 0x65, 0x6e, 0x76, 0x00], 0x0, 0x3ff0000000000000, 0x0, true),
        5 => (&[0x6f, 0x73, 0x63, 0x31, 0x5f, 0x66, 0x6d, 0x5f, 0x61, 0x6d, 0x6f, 0x75, 0x6e, 0x74, 0x00], 0x0, 0x3ff0000000000000, 0x0, false),
        6 => (&[0x6f, 0x73, 0x63, 0x31, 0x5f, 0x66, 0x6d, 0x5f, 0x65, 0x6e, 0x76, 0x00], 0x0, 0x3ff0000000000000, 0x0, true),
        7 => (&[0x6f, 0x73, 0x63, 0x31, 0x5f, 0x66, 0x6d, 0x5f, 0x6c, 0x66, 0x6f, 0x00], 0x0, 0x3ff0000000000000, 0x0, true),
        8 => (&[0x6d, 0x69, 0x78, 0x5f, 0x6f, 0x73, 0x63, 0x31, 0x00], 0x0, 0x3ff0000000000000, 0x3fe6666666666666, false),
        9 => (&[0x6d, 0x69, 0x78, 0x5f, 0x6f, 0x73, 0x63, 0x32, 0x00], 0x0, 0x3ff0000000000000, 0x0, false),
        10 => (&[0x6d, 0x69, 0x78, 0x5f, 0x6e, 0x6f, 0x69, 0x73, 0x65, 0x00], 0x0, 0x3ff0000000000000, 0x0, false),
        11 => (&[0x6d, 0x69, 0x78, 0x5f, 0x6e, 0x6f, 0x69, 0x73, 0x65, 0x5f, 0x74, 0x79, 0x70, 0x65, 0x00], 0x0, 0x3ff0000000000000, 0x0, true),
        12 => (&[0x70, 0x69, 0x74, 0x63, 0x68, 0x5f, 0x6d, 0x6f, 0x64, 0x5f, 0x73, 0x6f, 0x75, 0x72, 0x63, 0x65, 0x00], 0x0, 0x3ff0000000000000, 0x0, true),
        13 => (&[0x6f, 0x73, 0x63, 0x32, 0x5f, 0x73, 0x68, 0x61, 0x70, 0x65, 0x00], 0x0, 0x3ff0000000000000, 0x0, false),
        14 => (&[0x6f, 0x73, 0x63, 0x32, 0x5f, 0x63, 0x6f, 0x61, 0x72, 0x73, 0x65, 0x00], 0xc038000000000000, 0x4038000000000000, 0x0, false),
        15 => (&[0x6f, 0x73, 0x63, 0x32, 0x5f, 0x66, 0x69, 0x6e, 0x65, 0x00], 0xc059000000000000, 0x4059000000000000, 0x0, false),
        16 => (&[0x6f, 0x73, 0x63, 0x32, 0x5f, 0x73, 0x79, 0x6e, 0x63, 0x00], 0x0, 0x3ff0000000000000, 0x0, true),
        17 => (&[0x6f, 0x73, 0x63, 0x32, 0x5f, 0x6d, 0x6f, 0x64, 0x5f, 0x6c, 0x66, 0x6f, 0x00], 0x0, 0x3ff0000000000000, 0x0, true),
        18 => (&[0x6f, 0x73, 0x63, 0x32, 0x5f, 0x6d, 0x6f, 0x64, 0x5f, 0x65, 0x6e, 0x76, 0x00], 0x0, 0x3ff0000000000000, 0x0, true),
        19 => (&[0x66, 0x69, 0x6c, 0x74, 0x65, 0x72, 0x5f, 0x6d, 0x6f, 0x64, 0x65, 0x00], 0x0, 0x4000000000000000, 0x0, true),
        20 => (&[0x66, 0x69, 0x6c, 0x74, 0x65, 0x72, 0x5f, 0x70, 0x6f, 0x6c, 0x65, 0x00], 0x0, 0x3ff0000000000000, 0x3ff0000000000000, true),
        21 => (&[0x66, 0x69, 0x6c, 0x74, 0x65, 0x72, 0x5f, 0x72, 0x65, 0x73, 0x00], 0x0, 0x3ff0000000000000, 0x0, false),
        22 => (&[0x66, 0x69, 0x6c, 0x74, 0x65, 0x72, 0x5f, 0x66, 0x72, 0x65, 0x71, 0x00], 0x4034000000000000, 0x40d3880000000000, 0x40d3880000000000, false),
        23 => (&[0x66, 0x69, 0x6c, 0x74, 0x65, 0x72, 0x5f, 0x65, 0x6e, 0x76, 0x5f, 0x6f, 0x6e, 0x00], 0x0, 0x3ff0000000000000, 0x0, true),
        24 => (&[0x66, 0x69, 0x6c, 0x74, 0x65, 0x72, 0x5f, 0x6c, 0x66, 0x6f, 0x5f, 0x6f, 0x6e, 0x00], 0x0, 0x3ff0000000000000, 0x0, true),
        25 => (&[0x66, 0x69, 0x6c, 0x74, 0x65, 0x72, 0x5f, 0x6b, 0x65, 0x79, 0x74, 0x72, 0x61, 0x63, 0x6b, 0x00], 0x0, 0x3ff0000000000000, 0x0, false),
        26 => (&[0x66, 0x69, 0x6c, 0x74, 0x65, 0x72, 0x5f, 0x65, 0x6e, 0x76, 0x5f, 0x61, 0x6d, 0x6f, 0x75, 0x6e, 0x74, 0x00], 0xbff0000000000000, 0x3ff0000000000000, 0x3fe0000000000000, false),
        27 => (&[0x66, 0x69, 0x6c, 0x74, 0x65, 0x72, 0x5f, 0x6c, 0x66, 0x6f, 0x5f, 0x61, 0x6d, 0x6f, 0x75, 0x6e, 0x74, 0x00], 0x0, 0x3ff0000000000000, 0x0, false),
        28 => (&[0x76, 0x6f, 0x6c, 0x75, 0x6d, 0x65, 0x00], 0x0, 0x3ff0000000000000, 0x3fe6666666666666, false),
        29 => (&[0x6d, 0x6f, 0x6e, 0x6f, 0x00], 0x0, 0x3ff0000000000000, 0x0, true),
        30 => (&[0x6c, 0x65, 0x67, 0x61, 0x74, 0x6f, 0x00], 0x0, 0x3ff0000000000000, 0x0, true),
        31 => (&[0x75, 0x6e, 0x69, 0x73, 0x6f, 0x6e, 0x5f, 0x6d, 0x6f, 0x64, 0x65, 0x00], 0x0, 0x4008000000000000, 0x0, true),
        32 => (&[0x70, 0x61, 0x6e, 0x00], 0xbff0000000000000, 0x3ff0000000000000, 0x0, false),
        33 => (&[0x67, 0x6c, 0x69, 0x64, 0x65, 0x00], 0x0, 0x409f400000000000, 0x0, false),
        34 => (&[0x66, 0x69, 0x6c, 0x74, 0x65, 0x72, 0x5f, 0x61, 0x74, 0x74, 0x61, 0x63, 0x6b, 0x00], 0x3f50624dd2f1a9fc, 0x4020000000000000, 0x3f847ae147ae147b, false),
        35 => (&[0x66, 0x69, 0x6c, 0x74, 0x65, 0x72, 0x5f, 0x64, 0x65, 0x63, 0x61, 0x79, 0x00], 0x3f50624dd2f1a9fc, 0x4020000000000000, 0x3fd3333333333333, false),
        36 => (&[0x66, 0x69, 0x6c, 0x74, 0x65, 0x72, 0x5f, 0x73, 0x75, 0x73, 0x74, 0x61, 0x69, 0x6e, 0x00], 0x0, 0x3ff0000000000000, 0x3fd3333333333333, false),
        37 => (&[0x66, 0x69, 0x6c, 0x74, 0x65, 0x72, 0x5f, 0x72, 0x65, 0x6c, 0x65, 0x61, 0x73, 0x65, 0x00], 0x3f50624dd2f1a9fc, 0x4020000000000000, 0x3fd3333333333333, false),
        38 => (&[0x61, 0x6d, 0x70, 0x5f, 0x61, 0x74, 0x74, 0x61, 0x63, 0x6b, 0x00], 0x3f50624dd2f1a9fc, 0x4020000000000000, 0x3f847ae147ae147b, false),
        39 => (&[0x61, 0x6d, 0x70, 0x5f, 0x64, 0x65, 0x63, 0x61, 0x79, 0x00], 0x3f50624dd2f1a9fc, 0x4020000000000000, 0x3fb999999999999a, false),
        40 => (&[0x61, 0x6d, 0x70, 0x5f, 0x73, 0x75, 0x73, 0x74, 0x61, 0x69, 0x6e, 0x00], 0x0, 0x3ff0000000000000, 0x3fe6666666666666, false),
        41 => (&[0x61, 0x6d, 0x70, 0x5f, 0x72, 0x65, 0x6c, 0x65, 0x61, 0x73, 0x65, 0x00], 0x3f50624dd2f1a9fc, 0x4020000000000000, 0x3fd3333333333333, false),
        42 => (&[0x6d, 0x6f, 0x64, 0x5f, 0x61, 0x74, 0x74, 0x61, 0x63, 0x6b, 0x00], 0x3f50624dd2f1a9fc, 0x4020000000000000, 0x3f847ae147ae147b, false),
        43 => (&[0x6d, 0x6f, 0x64, 0x5f, 0x64, 0x65, 0x63, 0x61, 0x79, 0x00], 0x3f50624dd2f1a9fc, 0x4020000000000000, 0x3fd3333333333333, false),
        44 => (&[0x6d, 0x6f, 0x64, 0x5f, 0x73, 0x75, 0x73, 0x74, 0x61, 0x69, 0x6e, 0x00], 0x0, 0x3ff0000000000000, 0x3fe0000000000000, false),
        45 => (&[0x6d, 0x6f, 0x64, 0x5f, 0x72, 0x65, 0x6c, 0x65, 0x61, 0x73, 0x65, 0x00], 0x3f50624dd2f1a9fc, 0x4020000000000000, 0x3fd3333333333333, false),
        46 => (&[0x6c, 0x66, 0x6f, 0x5f, 0x72, 0x61, 0x74, 0x65, 0x00], 0x3f847ae147ae147b, 0x4049000000000000, 0x3ff0000000000000, false),
        47 => (&[0x6c, 0x66, 0x6f, 0x5f, 0x73, 0x79, 0x6e, 0x63, 0x00], 0x0, 0x3ff0000000000000, 0x0, true),
        48 => (&[0x6c, 0x66, 0x6f, 0x5f, 0x73, 0x68, 0x61, 0x70, 0x65, 0x00], 0x0, 0x4010000000000000, 0x0, true),
        49 => (&[0x6c, 0x66, 0x6f, 0x5f, 0x72, 0x65, 0x74, 0x72, 0x69, 0x67, 0x00], 0x0, 0x3ff0000000000000, 0x0, true),
        50 => (&[0x6c, 0x66, 0x6f, 0x5f, 0x64, 0x65, 0x6c, 0x61, 0x79, 0x00], 0x0, 0x4000000000000000, 0x0, false),
        51 => (&[0x6d, 0x6f, 0x64, 0x66, 0x78, 0x5f, 0x74, 0x79, 0x70, 0x65, 0x00], 0x0, 0x4008000000000000, 0x0, true),
        52 => (&[0x6d, 0x6f, 0x64, 0x66, 0x78, 0x5f, 0x72, 0x61, 0x74, 0x65, 0x00], 0x3f847ae147ae147b, 0x4024000000000000, 0x3ff0000000000000, false),
        53 => (&[0x6d, 0x6f, 0x64, 0x66, 0x78, 0x5f, 0x64, 0x65, 0x70, 0x74, 0x68, 0x00], 0x0, 0x3ff0000000000000, 0x3fe0000000000000, false),
        54 => (&[0x6d, 0x6f, 0x64, 0x66, 0x78, 0x5f, 0x6d, 0x69, 0x78, 0x00], 0x0, 0x3ff0000000000000, 0x3fe0000000000000, false),
        55 => (&[0x72, 0x65, 0x76, 0x65, 0x72, 0x62, 0x5f, 0x74, 0x79, 0x70, 0x65, 0x00], 0x0, 0x4008000000000000, 0x0, true),
        56 => (&[0x66, 0x78, 0x5f, 0x73, 0x79, 0x6e, 0x63, 0x00], 0x0, 0x3ff0000000000000, 0x0, true),
        57 => (&[0x66, 0x78, 0x5f, 0x74, 0x69, 0x6d, 0x65, 0x00], 0x0, 0x4010000000000000, 0x3fe0000000000000, false),
        58 => (&[0x66, 0x78, 0x5f, 0x61, 0x6d, 0x6f, 0x75, 0x6e, 0x74, 0x00], 0x0, 0x3ff0000000000000, 0x3fd3333333333333, false),
        59 => (&[0x66, 0x78, 0x5f, 0x66, 0x65, 0x65, 0x64, 0x62, 0x61, 0x63, 0x6b, 0x00], 0x0, 0x3fee666666666666, 0x3fd3333333333333, false),
        60 => (&[0x66, 0x78, 0x5f, 0x64, 0x61, 0x6d, 0x70, 0x69, 0x6e, 0x67, 0x00], 0x0, 0x3ff0000000000000, 0x3fe0000000000000, false),
        61 => (&[0x61, 0x72, 0x70, 0x5f, 0x6f, 0x6e, 0x00], 0x0, 0x3ff0000000000000, 0x0, true),
        62 => (&[0x61, 0x72, 0x70, 0x5f, 0x6f, 0x63, 0x74, 0x61, 0x76, 0x65, 0x00], 0x0, 0x4008000000000000, 0x0, true),
        63 => (&[0x61, 0x72, 0x70, 0x5f, 0x72, 0x61, 0x74, 0x65, 0x00], 0x3fe0000000000000, 0x403e000000000000, 0x4010000000000000, false),
        64 => (&[0x61, 0x72, 0x70, 0x5f, 0x6d, 0x6f, 0x64, 0x65, 0x00], 0x0, 0x4008000000000000, 0x0, true),
        65 => (&[0x61, 0x72, 0x70, 0x5f, 0x67, 0x61, 0x74, 0x65, 0x00], 0x3fb999999999999a, 0x3ff0000000000000, 0x3fe0000000000000, false),
        66 => (&[0x61, 0x72, 0x70, 0x5f, 0x73, 0x79, 0x6e, 0x63, 0x00], 0x0, 0x3ff0000000000000, 0x0, true),
        67 => (&[0x70, 0x69, 0x74, 0x63, 0x68, 0x5f, 0x62, 0x65, 0x6e, 0x64, 0x5f, 0x72, 0x61, 0x6e, 0x67, 0x65, 0x00], 0x0, 0x4038000000000000, 0x4000000000000000, false),
        68 => (&[0x70, 0x69, 0x74, 0x63, 0x68, 0x5f, 0x6d, 0x6f, 0x64, 0x5f, 0x61, 0x6d, 0x6f, 0x75, 0x6e, 0x74, 0x00], 0x0, 0x4038000000000000, 0x0, false),
        69 => (&[0x76, 0x69, 0x62, 0x72, 0x61, 0x74, 0x6f, 0x5f, 0x72, 0x61, 0x74, 0x65, 0x00], 0x3fb999999999999a, 0x402e000000000000, 0x4014000000000000, false),
        70 => (&[0x76, 0x69, 0x62, 0x72, 0x61, 0x74, 0x6f, 0x5f, 0x64, 0x65, 0x70, 0x74, 0x68, 0x00], 0x0, 0x3ff0000000000000, 0x0, false),
        71 => (&[0x6d, 0x61, 0x73, 0x74, 0x65, 0x72, 0x5f, 0x64, 0x72, 0x69, 0x76, 0x65, 0x00], 0x0, 0x3ff0000000000000, 0x0, false),
        72 => (&[0x76, 0x6f, 0x69, 0x63, 0x65, 0x5f, 0x63, 0x6f, 0x75, 0x6e, 0x74, 0x00], 0x0, 0x4008000000000000, 0x4000000000000000, false),
        73 => (&[0x6d, 0x61, 0x73, 0x74, 0x65, 0x72, 0x5f, 0x74, 0x75, 0x6e, 0x65, 0x00], 0xc059000000000000, 0x4059000000000000, 0x0, false),
        _ => (&[0x00], 0, 0, 0, false),
    };
    r
}

/// The full parameter table, in id order.
pub fn param_defs() -> (r: Vec<ParamDef>)
    ensures
        r@.len() == PARAM_COUNT,
        forall|i: int| 0 <= i < PARAM_COUNT ==> #[trigger] r@[i].view() == synth_entry(i),
{
    let mut r: Vec<ParamDef> = Vec::new();
    let mut i: usize = 0;
    while i < PARAM_COUNT
        invariant
            i <= PARAM_COUNT,
            r@.len() == i,
            forall|j: int| 0 <= j < i ==> #[trigger] r@[j].view() == synth_entry(j),
        decreases PARAM_COUNT - i,
    {
        let (name, mn, mx, d, stepped) = synth_row_exec(i);
        let mut nv: Vec<u8> = Vec::new();
        nv.extend_from_slice(name);
        let mut module: Vec<u8> = Vec::new();
        module.push(0);
        r.push(ParamDef {
            id: i as u32,
            flags: if stepped { PARAM_IS_AUTOMATABLE | PARAM_IS_STEPPED } else { PARAM_IS_AUTOMATABLE },
            name: nv,
            module,
            min_bits: mn,
            max_bits: mx,
            default_bits: d,
        });
        proof {
            let row = synth_row(i as int);
            assert(row.0 == name@ && row.1 == mn && row.2 == mx && row.3 == d && row.4 == stepped);
            assert(r@[i as int].view().module =~= seq![0u8]);
            assert(r@[i as int].view().name =~= row.0);
            assert(r@[i as int].view() == synth_entry(i as int));
        }
        i += 1;
    }
    r
}

/// The name each parameter goes by in the table, as the UI and saved
/// states know it.
pub open spec fn param_name(p: Param) -> Seq<char> {
    match p {
        Param::Osc1Shape => "osc1_shape"@,
        Param::Osc1Coarse => "osc1_coarse"@,
        Param::Osc1Fine => "osc1_fine"@,
        Param::Osc1ModLfo => "osc1_mod_lfo"@,
        Param::Osc1ModEnv => "osc1_mod_env"@,
        Param::Osc1FmAmount => "osc1_fm_amount"@,
        Param::Osc1FmEnv => "osc1_fm_env"@,
        Param::Osc1FmLfo => "osc1_fm_lfo"@,
        Param::MixOsc1 => "mix_osc1"@,
        Param::MixOsc2 => "mix_osc2"@,
        Param::MixNoise => "mix_noise"@,
        Param::MixNoiseType => "mix_noise_type"@,
        Param::PitchModSource => "pitch_mod_source"@,
        Param::Osc2Shape => "osc2_shape"@,
        Param::Osc2Coarse => "osc2_coarse"@,
        Param::Osc2Fine => "osc2_fine"@,
        Param::Osc2Sync => "osc2_sync"@,
        Param::Osc2ModLfo => "osc2_mod_lfo"@,
        Param::Osc2ModEnv => "osc2_mod_env"@,
        Param::FilterMode => "filter_mode"@,
        Param::FilterPole => "filter_pole"@,
        Param::FilterRes => "filter_res"@,
        Param::FilterFreq => "filter_freq"@,
        Param::FilterEnvOn => "filter_env_on"@,
        Param::FilterLfoOn => "filter_lfo_on"@,
        Param::FilterKeytrack => "filter_keytrack"@,
        Param::FilterEnvAmount => "filter_env_amount"@,
        Param::FilterLfoAmount => "filter_lfo_amount"@,
        Param::Volume => "volume"@,
        Param::Mono => "mono"@,
        Param::Legato => "legato"@,
        Param::UnisonMode => "unison_mode"@,
        Param::Pan => "pan"@,
        Param::Glide => "glide"@,
        Param::FilterAttack => "filter_attack"@,
        Param::FilterDecay => "filter_decay"@,
        Param::FilterSustain => "filter_sustain"@,
        Param::FilterRelease => "filter_release"@,
        Param::AmpAttack => "amp_attack"@,
        Param::AmpDecay => "amp_decay"@,
        Param::AmpSustain => "amp_sustain"@,
        Param::AmpRelease => "amp_release"@,
        Param::ModAttack => "mod_attack"@,
        Param::ModDecay => "mod_decay"@,
        Param::ModSustain => "mod_sustain"@,
        Param::ModRelease => "mod_release"@,
        Param::LfoRate => "lfo_rate"@,
        Param::LfoSync => "lfo_sync"@,
        Param::LfoShape => "lfo_shape"@,
        Param::LfoRetrig => "lfo_retrig"@,
        Param::LfoDelay => "lfo_delay"@,
        Param::ModFxType => "modfx_type"@,
        Param::ModFxRate => "modfx_rate"@,
        Param::ModFxDepth => "modfx_depth"@,
        Param::ModFxMix => "modfx_mix"@,
        Param::ReverbType => "reverb_type"@,
        Param::FxSync => "fx_sync"@,
        Param::FxTime => "fx_time"@,
        Param::FxAmount => "fx_amount"@,
        Param::FxFeedback => "fx_feedback"@,
        Param::FxDamping => "fx_damping"@,
        Param::ArpOn => "arp_on"@,
        Param::ArpOctave => "arp_octave"@,
        Param::ArpRate => "arp_rate"@,
        Param::ArpMode => "arp_mode"@,
        Param::ArpGate => "arp_gate"@,
        Param::ArpSync => "arp_sync"@,
        Param::PitchBendRange => "pitch_bend_range"@,
        Param::PitchModAmount => "pitch_mod_amount"@,
        Param::VibratoRate => "vibrato_rate"@,
        Param::VibratoDepth => "vibrato_depth"@,
        Param::MasterDrive => "master_drive"@,
        Param::VoiceCount => "voice_count"@,
        Param::MasterTune => "master_tune"@,
    }
}

/// A name as the table stores it: one byte per (ASCII) character, then NUL.
pub open spec fn ascii_z(s: Seq<char>) -> Seq<u8> {
    s.map_values(|c: char| c as u8).push(0u8)
}

/// Each parameter's frozen id selects the table row that carries that
/// parameter's own name, so a parameter and its row cannot be crossed.
#[verifier::rlimit(100)]
pub proof fn law_param_id_names_row(p: Param)
    ensures
        synth_row(spec_param_id(p) as int).0 == ascii_z(param_name(p)),
{
    match p {
        Param::Osc1Shape => { reveal_strlit("osc1_shape"); assert(ascii_z("osc1_shape"@) =~= synth_row(0).0); },
        Param::Osc1Coarse => { reveal_strlit("osc1_coarse"); assert(ascii_z("osc1_coarse"@) =~= synth_row(1).0); },
        Param::Osc1Fine => { reveal_strlit("osc1_fine"); assert(ascii_z("osc1_fine"@) =~= synth_row(2).0); },
        Param::Osc1ModLfo => { reveal_strlit("osc1_mod_lfo"); assert(ascii_z("osc1_mod_lfo"@) =~= synth_row(3).0); },
        Param::Osc1ModEnv => { reveal_strlit("osc1_mod_env"); assert(ascii_z("osc1_mod_env"@) =~= synth_row(4).0); },
        Param::Osc1FmAmount => { reveal_strlit("osc1_fm_amount"); assert(ascii_z("osc1_fm_amount"@) =~= synth_row(5).0); },
        Param::Osc1FmEnv => { reveal_strlit("osc1_fm_env"); assert(ascii_z("osc1_fm_env"@) =~= synth_row(6).0); },
        Param::Osc1FmLfo => { reveal_strlit("osc1_fm_lfo"); assert(ascii_z("osc1_fm_lfo"@) =~= synth_row(7).0); },
        Param::MixOsc1 => { reveal_strlit("mix_osc1"); assert(ascii_z("mix_osc1"@) =~= synth_row(8).0); },
        Param::MixOsc2 => { reveal_strlit("mix_osc2"); assert(ascii_z("mix_osc2"@) =~= synth_row(9).0); },
        Param::MixNoise => { reveal_strlit("mix_noise"); assert(ascii_z("mix_noise"@) =~= synth_row(10).0); },
        Param::MixNoiseType => { reveal_strlit("mix_noise_type"); assert(ascii_z("mix_noise_type"@) =~= synth_row(11).0); },
        Param::PitchModSource => { reveal_strlit("pitch_mod_source"); assert(ascii_z("pitch_mod_source"@) =~= synth_row(12).0); },
        Param::Osc2Shape => { reveal_strlit("osc2_shape"); assert(ascii_z("osc2_shape"@) =~= synth_row(13).0); },
        Param::Osc2Coarse => { reveal_strlit("osc2_coarse"); assert(ascii_z("osc2_coarse"@) =~= synth_row(14).0); },
        Param::Osc2Fine => { reveal_strlit("osc2_fine"); assert(ascii_z("osc2_fine"@) =~= synth_row(15).0); },
        Param::Osc2Sync => { reveal_strlit("osc2_sync"); assert(ascii_z("osc2_sync"@) =~= synth_row(16).0); },
        Param::Osc2ModLfo => { reveal_strlit("osc2_mod_lfo"); assert(ascii_z("osc2_mod_lfo"@) =~= synth_row(17).0); },
        Param::Osc2ModEnv => { reveal_strlit("osc2_mod_env"); assert(ascii_z("osc2_mod_env"@) =~= synth_row(18).0); },
        Param::FilterMode => { reveal_strlit("filter_mode"); assert(ascii_z("filter_mode"@) =~= synth_row(19).0); },
        Param::FilterPole => { reveal_strlit("filter_pole"); assert(ascii_z("filter_pole"@) =~= synth_row(20).0); },
        Param::FilterRes => { reveal_strlit("filter_res"); assert(ascii_z("filter_res"@) =~= synth_row(21).0); },
        Param::FilterFreq => { reveal_strlit("filter_freq"); assert(ascii_z("filter_freq"@) =~= synth_row(22).0); },
        Param::FilterEnvOn => { reveal_strlit("filter_env_on"); assert(ascii_z("filter_env_on"@) =~= synth_row(23).0); },
        Param::FilterLfoOn => { reveal_strlit("filter_lfo_on"); assert(ascii_z("filter_lfo_on"@) =~= synth_row(24).0); },
        Param::FilterKeytrack => { reveal_strlit("filter_keytrack"); assert(ascii_z("filter_keytrack"@) =~= synth_row(25).0); },
        Param::FilterEnvAmount => { reveal_strlit("filter_env_amount"); assert(ascii_z("filter_env_amount"@) =~= synth_row(26).0); },
        Param::FilterLfoAmount => { reveal_strlit("filter_lfo_amount"); assert(ascii_z("filter_lfo_amount"@) =~= synth_row(27).0); },
        Param::Volume => { reveal_strlit("volume"); assert(ascii_z("volume"@) =~= synth_row(28).0); },
        Param::Mono => { reveal_strlit("mono"); assert(ascii_z("mono"@) =~= synth_row(29).0); },
        Param::Legato => { reveal_strlit("legato"); assert(ascii_z("legato"@) =~= synth_row(30).0); },
        Param::UnisonMode => { reveal_strlit("unison_mode"); assert(ascii_z("unison_mode"@) =~= synth_row(31).0); },
        Param::Pan => { reveal_strlit("pan"); assert(ascii_z("pan"@) =~= synth_row(32).0); },
        Param::Glide => { reveal_strlit("glide"); assert(ascii_z("glide"@) =~= synth_row(33).0); },
        Param::FilterAttack => { reveal_strlit("filter_attack"); assert(ascii_z("filter_attack"@) =~= synth_row(34).0); },
        Param::FilterDecay => { reveal_strlit("filter_decay"); assert(ascii_z("filter_decay"@) =~= synth_row(35).0); },
        Param::FilterSustain => { reveal_strlit("filter_sustain"); assert(ascii_z("filter_sustain"@) =~= synth_row(36).0); },
        Param::FilterRelease => { reveal_strlit("filter_release"); assert(ascii_z("filter_release"@) =~= synth_row(37).0); },
        Param::AmpAttack => { reveal_strlit("amp_attack"); assert(ascii_z("amp_attack"@) =~= synth_row(38).0); },
        Param::AmpDecay => { reveal_strlit("amp_decay"); assert(ascii_z("amp_decay"@) =~= synth_row(39).0); },
        Param::AmpSustain => { reveal_strlit("amp_sustain"); assert(ascii_z("amp_sustain"@) =~= synth_row(40).0); },
        Param::AmpRelease => { reveal_strlit("amp_release"); assert(ascii_z("amp_release"@) =~= synth_row(41).0); },
        Param::ModAttack => { reveal_strlit("mod_attack"); assert(ascii_z("mod_attack"@) =~= synth_row(42).0); },
        Param::ModDecay => { reveal_strlit("mod_decay"); assert(ascii_z("mod_decay"@) =~= synth_row(43).0); },
        Param::ModSustain => { reveal_strlit("mod_sustain"); assert(ascii_z("mod_sustain"@) =~= synth_row(44).0); },
        Param::ModRelease => { reveal_strlit("mod_release"); assert(ascii_z("mod_release"@) =~= synth_row(45).0); },
        Param::LfoRate => { reveal_strlit("lfo_rate"); assert(ascii_z("lfo_rate"@) =~= synth_row(46).0); },
        Param::LfoSync => { reveal_strlit("lfo_sync"); assert(ascii_z("lfo_sync"@) =~= synth_row(47).0); },
        Param::LfoShape => { reveal_strlit("lfo_shape"); assert(ascii_z("lfo_shape"@) =~= synth_row(48).0); },
        Param::LfoRetrig => { reveal_strlit("lfo_retrig"); assert(ascii_z("lfo_retrig"@) =~= synth_row(49).0); },
        Param::LfoDelay => { reveal_strlit("lfo_delay"); assert(ascii_z("lfo_delay"@) =~= synth_row(50).0); },
        Param::ModFxType => { reveal_strlit("modfx_type"); assert(ascii_z("modfx_type"@) =~= synth_row(51).0); },
        Param::ModFxRate => { reveal_strlit("modfx_rate"); assert(ascii_z("modfx_rate"@) =~= synth_row(52).0); },
        Param::ModFxDepth => { reveal_strlit("modfx_depth"); assert(ascii_z("modfx_depth"@) =~= synth_row(53).0); },
        Param::ModFxMix => { reveal_strlit("modfx_mix"); assert(ascii_z("modfx_mix"@) =~= synth_row(54).0); },
        Param::ReverbType => { reveal_strlit("reverb_type"); assert(ascii_z("reverb_type"@) =~= synth_row(55).0); },
        Param::FxSync => { reveal_strlit("fx_sync"); assert(ascii_z("fx_sync"@) =~= synth_row(56).0); },
        Param::FxTime => { reveal_strlit("fx_time"); assert(ascii_z("fx_time"@) =~= synth_row(57).0); },
        Param::FxAmount => { reveal_strlit("fx_amount"); assert(ascii_z("fx_amount"@) =~= synth_row(58).0); },
        Param::FxFeedback => { reveal_strlit("fx_feedback"); assert(ascii_z("fx_feedback"@) =~= synth_row(59).0); },
        Param::FxDamping => { reveal_strlit("fx_damping"); assert(ascii_z("fx_damping"@) =~= synth_row(60).0); },
        Param::ArpOn => { reveal_strlit("arp_on"); assert(ascii_z("arp_on"@) =~= synth_row(61).0); },
        Param::ArpOctave => { reveal_strlit("arp_octave"); assert(ascii_z("arp_octave"@) =~= synth_row(62).0); },
        Param::ArpRate => { reveal_strlit("arp_rate"); assert(ascii_z("arp_rate"@) =~= synth_row(63).0); },
        Param::ArpMode => { reveal_strlit("arp_mode"); assert(ascii_z("arp_mode"@) =~= synth_row(64).0); },
        Param::ArpGate => { reveal_strlit("arp_gate"); assert(ascii_z("arp_gate"@) =~= synth_row(65).0); },
        Param::ArpSync => { reveal_strlit("arp_sync"); assert(ascii_z("arp_sync"@) =~= synth_row(66).0); },
        Param::PitchBendRange => { reveal_strlit("pitch_bend_range"); assert(ascii_z("pitch_bend_range"@) =~= synth_row(67).0); },
        Param::PitchModAmount => { reveal_strlit("pitch_mod_amount"); assert(ascii_z("pitch_mod_amount"@) =~= synth_row(68).0); },
        Param::VibratoRate => { reveal_strlit("vibrato_rate"); assert(ascii_z("vibrato_rate"@) =~= synth_row(69).0); },
        Param::VibratoDepth => { reveal_strlit("vibrato_depth"); assert(ascii_z("vibrato_depth"@) =~= synth_row(70).0); },
        Param::MasterDrive => { reveal_strlit("master_drive"); assert(ascii_z("master_drive"@) =~= synth_row(71).0); },
        Param::VoiceCount => { reveal_strlit("voice_count"); assert(ascii_z("voice_count"@) =~= synth_row(72).0); },
        Param::MasterTune => { reveal_strlit("master_tune"); assert(ascii_z("master_tune"@) =~= synth_row(73).0); },
    }
}


} // verus!
