//! The error codes of the PxTone engine.
use vstd::prelude::*;

verus! {

/// An error the PxTone engine reports, numbered as the engine numbers it (1 to 27; 0 means
/// success).
#[derive(Debug, Clone, Copy, PartialEq, Eq, Structural)]
pub enum Error {
    VOID,
    INIT,
    FATAL,
    AntiOpreation,
    DenyBeatclock,
    DescW,
    DescR,
    DescBroken,
    FmtNew,
    FmtUnknown,
    InvCode,
    InvData,
    Memory,
    MooInit,
    Ogg,
    OggNoSupported,
    Param,
    PcmConvert,
    PcmUnknown,
    PtnBuild,
    PtnInit,
    PtvNoSupported,
    TooMuchEvent,
    WoiceFull,
    X1XIgnore,
    X3XAddTuning,
    X3XKey,
}

/// The engine's number for error `e`.
pub open spec fn error_code(e: Error) -> i32 {
    match e {
        Error::VOID => 1,
        Error::INIT => 2,
        Error::FATAL => 3,
        Error::AntiOpreation => 4,
        Error::DenyBeatclock => 5,
        Error::DescW => 6,
        Error::DescR => 7,
        Error::DescBroken => 8,
        Error::FmtNew => 9,
        Error::FmtUnknown => 10,
        Error::InvCode => 11,
        Error::InvData => 12,
        Error::Memory => 13,
        Error::MooInit => 14,
        Error::Ogg => 15,
        Error::OggNoSupported => 16,
        Error::Param => 17,
        Error::PcmConvert => 18,
        Error::PcmUnknown => 19,
        Error::PtnBuild => 20,
        Error::PtnInit => 21,
        Error::PtvNoSupported => 22,
        Error::TooMuchEvent => 23,
        Error::WoiceFull => 24,
        Error::X1XIgnore => 25,
        Error::X3XAddTuning => 26,
        Error::X3XKey => 27,
    }
}

/// The error numbered `n`, if any.
pub open spec fn error_of_code(n: i32) -> Option<Error> {
    match n {
        1 => Some(Error::VOID),
        2 => Some(Error::INIT),
        3 => Some(Error::FATAL),
        4 => Some(Error::AntiOpreation),
        5 => Some(Error::DenyBeatclock),
        6 => Some(Error::DescW),
        7 => Some(Error::DescR),
        8 => Some(Error::DescBroken),
        9 => Some(Error::FmtNew),
        10 => Some(Error::FmtUnknown),
        11 => Some(Error::InvCode),
        12 => Some(Error::InvData),
        13 => Some(Error::Memory),
        14 => Some(Error::MooInit),
        15 => Some(Error::Ogg),
        16 => Some(Error::OggNoSupported),
        17 => Some(Error::Param),
        18 => Some(Error::PcmConvert),
        19 => Some(Error::PcmUnknown),
        20 => Some(Error::PtnBuild),
        21 => Some(Error::PtnInit),
        22 => Some(Error::PtvNoSupported),
        23 => Some(Error::TooMuchEvent),
        24 => Some(Error::WoiceFull),
        25 => Some(Error::X1XIgnore),
        26 => Some(Error::X3XAddTuning),
        27 => Some(Error::X3XKey),
        _ => None,
    }
}

impl Error {
    pub fn from_i32(n: i32) -> (r: Option<Error>)
        ensures
            r == error_of_code(n),
    {
        match n {
            1 => Some(Error::VOID),
            2 => Some(Error::INIT),
            3 => Some(Error::FATAL),
            4 => Some(Error::AntiOpreation),
            5 => Some(Error::DenyBeatclock),
            6 => Some(Error::DescW),
            7 => Some(Error::DescR),
            8 => Some(Error::DescBroken),
            9 => Some(Error::FmtNew),
            10 => Some(Error::FmtUnknown),
            11 => Some(Error::InvCode),
            12 => Some(Error::InvData),
            13 => Some(Error::Memory),
            14 => Some(Error::MooInit),
            15 => Some(Error::Ogg),
            16 => Some(Error::OggNoSupported),
            17 => Some(Error::Param),
            18 => Some(Error::PcmConvert),
            19 => Some(Error::PcmUnknown),
            20 => Some(Error::PtnBuild),
            21 => Some(Error::PtnInit),
            22 => Some(Error::PtvNoSupported),
            23 => Some(Error::TooMuchEvent),
            24 => Some(Error::WoiceFull),
            25 => Some(Error::X1XIgnore),
            26 => Some(Error::X3XAddTuning),
            27 => Some(Error::X3XKey),
            _ => None,
        }
    }

    pub fn to_i32(self) -> (r: i32)
        ensures
            r == error_code(self),
    {
        match self {
            Error::VOID => 1,
            Error::INIT => 2,
            Error::FATAL => 3,
            Error::AntiOpreation => 4,
            Error::DenyBeatclock => 5,
            Error::DescW => 6,
            Error::DescR => 7,
            Error::DescBroken => 8,
            Error::FmtNew => 9,
            Error::FmtUnknown => 10,
            Error::InvCode => 11,
            Error::InvData => 12,
            Error::Memory => 13,
            Error::MooInit => 14,
            Error::Ogg => 15,
            Error::OggNoSupported => 16,
            Error::Param => 17,
            Error::PcmConvert => 18,
            Error::PcmUnknown => 19,
            Error::PtnBuild => 20,
            Error::PtnInit => 21,
            Error::PtvNoSupported => 22,
            Error::TooMuchEvent => 23,
            Error::WoiceFull => 24,
            Error::X1XIgnore => 25,
            Error::X3XAddTuning => 26,
            Error::X3XKey => 27,
        }
    }

    /// A status the engine returned: success for a number no error has, else that error.
    pub fn from_raw(value: i32) -> (r: Result<(), Error>)
        ensures
            match error_of_code(value) {
                Some(e) => r == Err::<(), Error>(e),
                None => r is Ok,
            },
    {
        match Error::from_i32(value) {
            Some(e) => Err(e),
            None => Ok(()),
        }
    }
}

/// Every error's number reads back as that error.
pub proof fn lemma_error_code_round_trip(e: Error)
    ensures
        error_of_code(error_code(e)) == Some(e),
{
}

} // verus!
